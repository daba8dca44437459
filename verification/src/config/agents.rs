//! The `agents` section as the loader reads it.
use crate::config::rule::Rule;
use crate::config::trigger::TriggerConfig;
use vstd::prelude::*;

pub use crate::config::agents_config::default_pool_size;

verus! {

/// The pool size of the `agents` section.
#[derive(Debug, Clone)]
pub struct AgentsConfig {
    pub pool: usize,
}

/// The whole `agents` section: pool size, triggers and rules.
#[derive(Debug, Clone)]
pub struct FullAgentsConfig {
    pub pool: usize,
    pub triggers: Vec<TriggerConfig>,
    pub rules: Vec<Rule>,
}

impl Default for AgentsConfig {
    fn default() -> (c: Self)
        ensures
            c.pool == 1,
    {
        AgentsConfig { pool: default_pool_size() }
    }
}

impl Default for FullAgentsConfig {
    fn default() -> (c: Self)
        ensures
            c.pool == 0,
            c.triggers@.len() == 0,
            c.rules@.len() == 0,
    {
        FullAgentsConfig { pool: 0, triggers: Vec::new(), rules: Vec::new() }
    }
}

} // verus!
