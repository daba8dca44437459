//! Rules that carry workflow actions, compiled for matching.
use crate::config::error::ConfigError;
use crate::config::helper::duration_fits;
use crate::config::rules_config::{parse_rule_condition, spec_rule_condition, RuleCondition, RuleType as Condition};
use crate::config::types::{compile_action, spec_compile_action, ActionType};
use crate::pattern::Regex;
use crate::text::{opt_view, strings_view};
use vstd::prelude::*;

pub use crate::rule::capture::{resolve_capture_groups, resolve_capture_groups_in_vec};

verus! {

/// A rule as written in the configuration file; `pattern` is another name
/// for `when`.
#[derive(Debug, Clone)]
pub struct Rule {
    pub when: Option<String>,
    pub diff_timeout: Option<String>,
    pub action: Option<String>,
    pub keys: Vec<String>,
    pub workflow: Option<String>,
    pub args: Vec<String>,
}

/// A compiled rule.
#[derive(Debug, Clone)]
pub struct CompiledRule {
    pub rule_type: RuleType,
    pub action: ActionType,
}

/// What sets a compiled rule off.
#[derive(Debug, Clone)]
pub enum RuleType {
    Pattern(Regex),
    DiffTimeout(u64),
}

impl View for RuleType {
    type V = RuleCondition;

    open spec fn view(&self) -> RuleCondition {
        match self {
            RuleType::Pattern(re) => RuleCondition::When(re@),
            RuleType::DiffTimeout(secs) => RuleCondition::DiffTimeout(*secs as nat),
        }
    }
}

/// A rule whose `diff_timeout`, if any, fits in a `u64` number of seconds.
pub open spec fn rule_fits(rule: Rule) -> bool {
    rule.diff_timeout matches Some(d) ==> duration_fits(d@)
}

/// The compiled rule that a configuration entry describes, or why it is
/// refused: the condition is checked first, then the action.
pub open spec fn compiled_rule_matches(rule: Rule, r: Result<CompiledRule, ConfigError>) -> bool {
    match spec_rule_condition(opt_view(rule.when), opt_view(rule.diff_timeout)) {
        Err(e) => r == Err::<CompiledRule, ConfigError>(e),
        Ok(c) => match spec_compile_action(
            opt_view(rule.action),
            strings_view(rule.keys@),
            opt_view(rule.workflow),
            strings_view(rule.args@),
        ) {
            Err(e) => r == Err::<CompiledRule, ConfigError>(e),
            Ok(a) => r matches Ok(cr) && cr.rule_type@ == c && cr.action@ == a,
        },
    }
}

impl Rule {
    /// Compiles the rule.
    pub fn compile(&self) -> (r: Result<CompiledRule, ConfigError>)
        requires
            rule_fits(*self),
        ensures
            compiled_rule_matches(*self, r),
    {
        let rule_type = match parse_rule_condition(&self.when, &self.diff_timeout) {
            Ok(Condition::When(re)) => RuleType::Pattern(re),
            Ok(Condition::DiffTimeout(secs)) => RuleType::DiffTimeout(secs),
            Err(e) => {
                return Err(e);
            },
        };
        let action = match compile_action(
            &self.action,
            self.keys.as_slice(),
            &self.workflow,
            self.args.as_slice(),
        ) {
            Ok(a) => a,
            Err(e) => {
                return Err(e);
            },
        };
        Ok(CompiledRule { rule_type, action })
    }
}

/// The fields of a condition and an action that make a rule valid.
pub open spec fn rule_valid(rule: Rule) -> bool {
    &&& spec_rule_condition(opt_view(rule.when), opt_view(rule.diff_timeout)) is Ok
    &&& spec_compile_action(
        opt_view(rule.action),
        strings_view(rule.keys@),
        opt_view(rule.workflow),
        strings_view(rule.args@),
    ) is Ok
}

/// Why a rule is refused.
pub open spec fn rule_error(rule: Rule) -> ConfigError {
    match spec_rule_condition(opt_view(rule.when), opt_view(rule.diff_timeout)) {
        Err(e) => e,
        Ok(_) => match spec_compile_action(
            opt_view(rule.action),
            strings_view(rule.keys@),
            opt_view(rule.workflow),
            strings_view(rule.args@),
        ) {
            Err(e) => e,
            Ok(_) => ConfigError::UnknownAction,
        },
    }
}

} // verus!
