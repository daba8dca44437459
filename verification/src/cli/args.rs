//! The options of the command line.
use vstd::prelude::*;

verus! {

/// The options the program is started with.
#[derive(Debug, Clone)]
pub struct Cli {
    /// Path to the configuration file, if one was given.
    pub config: Option<String>,
    /// Whether internal details are logged.
    pub debug: bool,
}

/// The configuration file used: the one given, else `config.yaml`.
pub fn config_path(cli: &Cli) -> (p: String)
    ensures
        match cli.config {
            Some(c) => p@ == c@,
            None => p@ == "config.yaml"@,
        },
{
    match &cli.config {
        Some(c) => c.clone(),
        None => "config.yaml".to_owned(),
    }
}

} // verus!
