//! Settings of the web interface and the terminal size of each agent.
use vstd::prelude::*;

verus! {

/// The `web_ui` section of the configuration file.
#[derive(Debug, Clone)]
pub struct WebUIConfig {
    pub enabled: bool,
    pub host: String,
    pub base_port: u16,
    pub cols: u16,
    pub rows: u16,
}

impl Default for WebUIConfig {
    fn default() -> (c: Self)
        ensures
            c.enabled,
            c.host@ == "localhost"@,
            c.base_port == 9990,
            c.cols == 80,
            c.rows == 24,
    {
        WebUIConfig {
            enabled: default_enabled(),
            host: default_host(),
            base_port: default_base_port(),
            cols: default_cols(),
            rows: default_rows(),
        }
    }
}

/// The port of the first agent's web interface.
pub fn default_base_port() -> (p: u16)
    ensures
        p == 9990,
{
    9990
}

/// The web interface is on unless the file turns it off.
pub fn default_enabled() -> (b: bool)
    ensures
        b,
{
    true
}

/// The host the web interface is served on.
pub fn default_host() -> (h: String)
    ensures
        h@ == "localhost"@,
{
    "localhost".to_owned()
}

/// Terminal width.
pub fn default_cols() -> (c: u16)
    ensures
        c == 80,
{
    80
}

/// Terminal height.
pub fn default_rows() -> (r: u16)
    ensures
        r == 24,
{
    24
}

} // verus!
