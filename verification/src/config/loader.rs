//! Compiling a loaded configuration file into triggers, rules and the
//! settings of the agent pool.
use crate::config::agents::{AgentsConfig, FullAgentsConfig};
use crate::config::error::ConfigError;
use crate::config::rule::{compiled_rule_matches, rule_error, rule_fits, rule_valid, CompiledRule, Rule};
use crate::config::trigger::{
    trigger_config_error, trigger_config_valid, trigger_result_matches, Trigger, TriggerConfig,
};
use crate::config::triggers_config::event_fits;
use crate::config::web_ui::WebUIConfig;
use vstd::prelude::*;

verus! {

/// The settings of the web interface and of the agent pool.
#[derive(Debug, Clone, Default)]
pub struct MonitorConfig {
    pub web_ui: WebUIConfig,
    pub agents: AgentsConfig,
}

/// The configuration file as loaded.
#[derive(Debug, Clone)]
pub struct ConfigFile {
    pub web_ui: WebUIConfig,
    pub agents: FullAgentsConfig,
}

/// Every timer and timeout of the file fits in a `u64` number of seconds.
pub open spec fn config_file_fits(file: ConfigFile) -> bool {
    &&& forall|i: int|
        0 <= i < file.agents.triggers@.len() ==> event_fits(
            #[trigger] file.agents.triggers@[i].event@,
        )
    &&& forall|i: int| 0 <= i < file.agents.rules@.len() ==> rule_fits(#[trigger] file.agents.rules@[i])
}

/// The triggers compiled one by one, stopping at the first one refused.
pub open spec fn entries_outcome(cs: Seq<TriggerConfig>, r: Result<Vec<Trigger>, ConfigError>) -> bool {
    match r {
        Ok(ts) => {
            &&& forall|i: int| 0 <= i < cs.len() ==> trigger_config_valid(#[trigger] cs[i])
            &&& ts@.len() == cs.len()
            &&& forall|i: int| 0 <= i < cs.len() ==> trigger_result_matches(cs[i], Ok(#[trigger] ts@[i]))
        },
        Err(e) => exists|j: int|
            0 <= j < cs.len() && !trigger_config_valid(#[trigger] cs[j]) && e == trigger_config_error(cs[j])
                && forall|i: int| 0 <= i < j ==> trigger_config_valid(#[trigger] cs[i]),
    }
}

/// The rules compiled one by one, stopping at the first one refused.
pub open spec fn compiled_rules_outcome(rs: Seq<Rule>, r: Result<Vec<CompiledRule>, ConfigError>) -> bool {
    match r {
        Ok(cr) => {
            &&& forall|i: int| 0 <= i < rs.len() ==> rule_valid(#[trigger] rs[i])
            &&& cr@.len() == rs.len()
            &&& forall|i: int| 0 <= i < rs.len() ==> compiled_rule_matches(rs[i], Ok(#[trigger] cr@[i]))
        },
        Err(e) => exists|j: int|
            0 <= j < rs.len() && !rule_valid(#[trigger] rs[j]) && e == rule_error(rs[j])
                && forall|i: int| 0 <= i < j ==> rule_valid(#[trigger] rs[i]),
    }
}

/// Compiles the triggers of a file, in order.
pub fn compile_entries(cs: &Vec<TriggerConfig>) -> (r: Result<Vec<Trigger>, ConfigError>)
    requires
        forall|i: int| 0 <= i < cs@.len() ==> event_fits(#[trigger] cs@[i].event@),
    ensures
        entries_outcome(cs@, r),
{
    let mut out: Vec<Trigger> = Vec::new();
    let mut i: usize = 0;
    while i < cs.len()
        invariant
            i <= cs@.len(),
            forall|j: int| 0 <= j < cs@.len() ==> event_fits(#[trigger] cs@[j].event@),
            out@.len() == i,
            forall|j: int| 0 <= j < i ==> trigger_config_valid(#[trigger] cs@[j]),
            forall|j: int| 0 <= j < i ==> trigger_result_matches(cs@[j], Ok(#[trigger] out@[j])),
        decreases cs@.len() - i,
    {
        let c = cs[i].clone_config();
        assert(event_fits(cs@[i as int].event@));
        match Trigger::try_from(c) {
            Ok(t) => {
                out.push(t);
            },
            Err(e) => {
                assert(!trigger_config_valid(cs@[i as int]));
                return Err(e);
            },
        }
        i = i + 1;
    }
    Ok(out)
}

/// Compiles the rules of a file, in order.
pub fn compile_rules(rs: &Vec<Rule>) -> (r: Result<Vec<CompiledRule>, ConfigError>)
    requires
        forall|i: int| 0 <= i < rs@.len() ==> rule_fits(#[trigger] rs@[i]),
    ensures
        compiled_rules_outcome(rs@, r),
{
    let mut out: Vec<CompiledRule> = Vec::new();
    let mut i: usize = 0;
    while i < rs.len()
        invariant
            i <= rs@.len(),
            forall|j: int| 0 <= j < rs@.len() ==> rule_fits(#[trigger] rs@[j]),
            out@.len() == i,
            forall|j: int| 0 <= j < i ==> rule_valid(#[trigger] rs@[j]),
            forall|j: int| 0 <= j < i ==> compiled_rule_matches(rs@[j], Ok(#[trigger] out@[j])),
        decreases rs@.len() - i,
    {
        assert(rule_fits(rs@[i as int]));
        match rs[i].compile() {
            Ok(t) => {
                out.push(t);
            },
            Err(e) => {
                assert(!rule_valid(rs@[i as int]));
                return Err(e);
            },
        }
        i = i + 1;
    }
    Ok(out)
}

/// Compiles a loaded configuration file into its triggers, its rules (in
/// file order, which is their priority) and the settings of the agent pool.
pub fn compile_config_file(file: ConfigFile) -> (r: Result<
    (Vec<Trigger>, Vec<CompiledRule>, MonitorConfig),
    ConfigError,
>)
    requires
        config_file_fits(file),
    ensures
        match r {
            Ok((ts, rs, mc)) => {
                &&& entries_outcome(file.agents.triggers@, Ok(ts))
                &&& compiled_rules_outcome(file.agents.rules@, Ok(rs))
                &&& mc.web_ui == file.web_ui
                &&& mc.agents.pool == file.agents.pool
            },
            Err(e) => entries_outcome(file.agents.triggers@, Err(e)) || ((forall|i: int|
                0 <= i < file.agents.triggers@.len() ==> trigger_config_valid(
                    #[trigger] file.agents.triggers@[i],
                )) && compiled_rules_outcome(file.agents.rules@, Err(e))),
        },
{
    let triggers = match compile_entries(&file.agents.triggers) {
        Ok(t) => t,
        Err(e) => {
            return Err(e);
        },
    };
    let rules = match compile_rules(&file.agents.rules) {
        Ok(r) => r,
        Err(e) => {
            return Err(e);
        },
    };
    let monitor_config = MonitorConfig {
        web_ui: file.web_ui,
        agents: AgentsConfig { pool: file.agents.pool },
    };
    Ok((triggers, rules, monitor_config))
}

impl MonitorConfig {
    /// The terminal dimensions of an agent, the same for all agents.
    pub fn get_agent_dimensions(&self, _index: usize) -> (d: (u16, u16))
        ensures
            d == (self.web_ui.cols, self.web_ui.rows),
    {
        (self.web_ui.cols, self.web_ui.rows)
    }

    /// The port of the first agent's web interface.
    pub fn get_web_ui_port(&self) -> (p: u16)
        ensures
            p == self.web_ui.base_port,
    {
        self.web_ui.base_port
    }

    /// The number of agents.
    pub fn get_agent_pool_size(&self) -> (n: usize)
        ensures
            n == self.agents.pool,
    {
        self.agents.pool
    }
}

} // verus!
