//! The `agents` section: pool size, triggers and rules.
use crate::config::rules_config::RuleConfig;
use crate::config::triggers_config::TriggerConfig;
use vstd::prelude::*;

verus! {

/// The `agents` section of the configuration file.
#[derive(Debug, Clone)]
pub struct AgentsConfig {
    pub pool: usize,
    pub triggers: Vec<TriggerConfig>,
    pub rules: Vec<RuleConfig>,
}

impl Default for AgentsConfig {
    fn default() -> (c: Self)
        ensures
            c.pool == 1,
            c.triggers@.len() == 0,
            c.rules@.len() == 0,
    {
        AgentsConfig { pool: default_pool_size(), triggers: Vec::new(), rules: Vec::new() }
    }
}

/// The number of agents when the file does not say.
pub fn default_pool_size() -> (n: usize)
    ensures
        n == 1,
{
    1
}

} // verus!
