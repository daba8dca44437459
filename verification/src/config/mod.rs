pub mod error;
pub mod helper;
pub mod loader;
pub mod placeholder;
pub mod types;
pub mod triggers_config;
pub mod trigger;
pub mod rules_config;
pub mod rule;
pub mod agents;
pub mod agents_config;
pub mod terminal;
pub mod web_ui;
pub mod web_ui_config;

use crate::config::agents_config::AgentsConfig;
use crate::config::error::ConfigError;
use crate::config::rules_config::{
    rule_config_error, rule_config_fits, rule_config_valid, rule_result_matches, Rule, RuleConfig,
};
use crate::config::triggers_config::{
    event_fits, trigger_config_error, trigger_config_valid, trigger_result_matches, Trigger,
    TriggerConfig,
};
use crate::config::web_ui_config::WebUIConfig;
use vstd::prelude::*;

verus! {

/// The configuration file: the web interface and the agents.
#[derive(Debug, Clone)]
pub struct Config {
    pub web_ui: WebUIConfig,
    pub agents: AgentsConfig,
}

impl Default for Config {
    fn default() -> (c: Self)
        ensures
            c.web_ui.enabled,
            c.web_ui.base_port == 9990,
            c.agents.pool == 1,
            c.agents.triggers@.len() == 0,
            c.agents.rules@.len() == 0,
    {
        Config { web_ui: WebUIConfig::default(), agents: AgentsConfig::default() }
    }
}

/// Every trigger entry's timer, if any, fits in a `u64` number of seconds.
pub open spec fn triggers_fit(cs: Seq<TriggerConfig>) -> bool {
    forall|i: int| 0 <= i < cs.len() ==> event_fits(#[trigger] cs[i].event@)
}

/// Every rule entry's timeout, if any, fits in a `u64` number of seconds.
pub open spec fn rules_fit(cs: Seq<RuleConfig>) -> bool {
    forall|i: int| 0 <= i < cs.len() ==> rule_config_fits(#[trigger] cs[i])
}

/// The outcome of validating the trigger entries one by one, stopping at
/// the first one refused: every entry validated in its place, or the error
/// of the first entry refused.
pub open spec fn triggers_outcome(cs: Seq<TriggerConfig>, r: Result<Vec<Trigger>, ConfigError>) -> bool {
    match r {
        Ok(ts) => {
            &&& forall|i: int| 0 <= i < cs.len() ==> trigger_config_valid(#[trigger] cs[i])
            &&& ts@.len() == cs.len()
            &&& forall|i: int| 0 <= i < cs.len() ==> trigger_result_matches(cs[i], Ok(#[trigger] ts@[i]))
        },
        Err(e) => exists|j: int|
            0 <= j < cs.len() && !trigger_config_valid(#[trigger] cs[j]) && e == trigger_config_error(cs[j])
                && forall|i: int| 0 <= i < j ==> trigger_config_valid(#[trigger] cs[i]),
    }
}

/// The outcome of validating the rule entries one by one, stopping at the
/// first one refused.
pub open spec fn rules_outcome(cs: Seq<RuleConfig>, r: Result<Vec<Rule>, ConfigError>) -> bool {
    match r {
        Ok(ts) => {
            &&& forall|i: int| 0 <= i < cs.len() ==> rule_config_valid(#[trigger] cs[i])
            &&& ts@.len() == cs.len()
            &&& forall|i: int| 0 <= i < cs.len() ==> rule_result_matches(cs[i], Ok(#[trigger] ts@[i]))
        },
        Err(e) => exists|j: int|
            0 <= j < cs.len() && !rule_config_valid(#[trigger] cs[j]) && e == rule_config_error(cs[j])
                && forall|i: int| 0 <= i < j ==> rule_config_valid(#[trigger] cs[i]),
    }
}

impl Config {
    /// Whether every timer and timeout of the entries fits in a `u64` number
    /// of seconds, as validating them asks.
    pub fn entries_within_range(&self) -> (b: bool)
        ensures
            b == (triggers_fit(self.agents.triggers@) && rules_fit(self.agents.rules@)),
    {
        let ts = &self.agents.triggers;
        let mut i: usize = 0;
        while i < ts.len()
            invariant
                i <= ts@.len(),
                ts@ == self.agents.triggers@,
                forall|j: int| 0 <= j < i ==> event_fits(#[trigger] ts@[j].event@),
            decreases ts@.len() - i,
        {
            if !crate::config::triggers_config::event_within_range(ts[i].event.as_str()) {
                return false;
            }
            i = i + 1;
        }
        let rs = &self.agents.rules;
        let mut k: usize = 0;
        while k < rs.len()
            invariant
                k <= rs@.len(),
                rs@ == self.agents.rules@,
                triggers_fit(self.agents.triggers@),
                forall|j: int| 0 <= j < k ==> rule_config_fits(#[trigger] rs@[j]),
            decreases rs@.len() - k,
        {
            match &rs[k].diff_timeout {
                Some(d) => {
                    let cs = crate::text::chars_of(d.as_str());
                    if !crate::config::helper::duration_within_range(cs.as_slice()) {
                        return false;
                    }
                },
                None => {},
            }
            k = k + 1;
        }
        true
    }

    /// Validates the trigger entries, in order.
    pub fn parse_triggers(&self) -> (r: Result<Vec<Trigger>, ConfigError>)
        requires
            triggers_fit(self.agents.triggers@),
        ensures
            triggers_outcome(self.agents.triggers@, r),
    {
        let cs = &self.agents.triggers;
        let mut triggers: Vec<Trigger> = Vec::new();
        let mut i: usize = 0;
        while i < cs.len()
            invariant
                i <= cs@.len(),
                triggers_fit(cs@),
                cs@ == self.agents.triggers@,
                triggers@.len() == i,
                forall|j: int| 0 <= j < i ==> trigger_config_valid(#[trigger] cs@[j]),
                forall|j: int| 0 <= j < i ==> trigger_result_matches(cs@[j], Ok(#[trigger] triggers@[j])),
            decreases cs@.len() - i,
        {
            let c = cs[i].clone_config();
            assert(event_fits(cs@[i as int].event@));
            match Trigger::try_from(c) {
                Ok(t) => {
                    triggers.push(t);
                },
                Err(e) => {
                    assert(!trigger_config_valid(cs@[i as int]));
                    return Err(e);
                },
            }
            i = i + 1;
        }
        Ok(triggers)
    }

    /// Validates the rule entries, in order.
    pub fn parse_rules(&self) -> (r: Result<Vec<Rule>, ConfigError>)
        requires
            rules_fit(self.agents.rules@),
        ensures
            rules_outcome(self.agents.rules@, r),
    {
        let cs = &self.agents.rules;
        let mut rules: Vec<Rule> = Vec::new();
        let mut i: usize = 0;
        while i < cs.len()
            invariant
                i <= cs@.len(),
                rules_fit(cs@),
                cs@ == self.agents.rules@,
                rules@.len() == i,
                forall|j: int| 0 <= j < i ==> rule_config_valid(#[trigger] cs@[j]),
                forall|j: int| 0 <= j < i ==> rule_result_matches(cs@[j], Ok(#[trigger] rules@[j])),
            decreases cs@.len() - i,
        {
            let c = cs[i].clone_config();
            assert(rule_config_fits(cs@[i as int]));
            match Rule::try_from(c) {
                Ok(t) => {
                    rules.push(t);
                },
                Err(e) => {
                    assert(!rule_config_valid(cs@[i as int]));
                    return Err(e);
                },
            }
            i = i + 1;
        }
        Ok(rules)
    }
}

} // verus!
