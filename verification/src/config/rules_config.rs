//! Rules: automatic responses to what the terminal shows, or to its silence.
use crate::config::error::ConfigError;
use crate::config::helper::{
    duration_fits, parse_action, parse_duration, spec_parse_action, spec_parse_duration,
    ActionType,
};
use crate::pattern::{spec_regex_compiles, Regex};
use crate::text::{opt_view, strings_view};
use vstd::prelude::*;

verus! {

/// A rule as written in the configuration file.
#[derive(Debug, Clone)]
pub struct RuleConfig {
    pub when: Option<String>,
    pub diff_timeout: Option<String>,
    pub action: Option<String>,
    pub keys: Vec<String>,
}

/// A validated rule.
#[derive(Debug, Clone)]
pub struct Rule {
    pub rule_type: RuleType,
    pub action: ActionType,
}

/// What sets a rule off: a line of output that matches the pattern, or
/// `diff_timeout` seconds without output.
#[derive(Debug, Clone)]
pub enum RuleType {
    When(Regex),
    DiffTimeout(u64),
}

/// The condition of a rule as values.
pub enum RuleCondition {
    When(Seq<char>),
    DiffTimeout(nat),
}

impl View for RuleType {
    type V = RuleCondition;

    open spec fn view(&self) -> RuleCondition {
        match self {
            RuleType::When(re) => RuleCondition::When(re@),
            RuleType::DiffTimeout(secs) => RuleCondition::DiffTimeout(*secs as nat),
        }
    }
}

/// A rule whose `diff_timeout`, if any, fits in a `u64` number of seconds.
pub open spec fn rule_config_fits(config: RuleConfig) -> bool {
    config.diff_timeout matches Some(d) ==> duration_fits(d@)
}

/// The condition of a rule, or why it is refused: exactly one of `when` and
/// `diff_timeout` must be given, `when` as a regular expression that compiles.
pub open spec fn spec_rule_condition(when: Option<Seq<char>>, diff_timeout: Option<Seq<char>>) -> Result<
    RuleCondition,
    ConfigError,
> {
    match (when, diff_timeout) {
        (Some(p), None) => if spec_regex_compiles(p) {
            Ok(RuleCondition::When(p))
        } else {
            Err(ConfigError::InvalidRegex)
        },
        (None, Some(d)) => match spec_parse_duration(d) {
            Ok(n) => Ok(RuleCondition::DiffTimeout(n)),
            Err(e) => Err(e),
        },
        (Some(_), Some(_)) => Err(ConfigError::BothWhenAndDiffTimeout),
        (None, None) => Err(ConfigError::NeitherWhenNorDiffTimeout),
    }
}

/// Compiles the condition fields of a rule.
pub fn parse_rule_condition(when: &Option<String>, diff_timeout: &Option<String>) -> (r: Result<
    RuleType,
    ConfigError,
>)
    requires
        diff_timeout matches Some(d) ==> duration_fits(d@),
    ensures
        match spec_rule_condition(opt_view(*when), opt_view(*diff_timeout)) {
            Ok(c) => r matches Ok(t) && t@ == c,
            Err(e) => r == Err::<RuleType, ConfigError>(e),
        },
{
    match (when, diff_timeout) {
        (Some(pattern), None) => match Regex::new(pattern.as_str()) {
            Ok(re) => Ok(RuleType::When(re)),
            Err(e) => Err(e),
        },
        (None, Some(timeout)) => match parse_duration(timeout.as_str()) {
            Ok(secs) => Ok(RuleType::DiffTimeout(secs)),
            Err(e) => Err(e),
        },
        (Some(_), Some(_)) => Err(ConfigError::BothWhenAndDiffTimeout),
        (None, None) => Err(ConfigError::NeitherWhenNorDiffTimeout),
    }
}

/// The rule that a configuration entry describes, or why it is refused: the
/// condition is checked first, then the action.
pub open spec fn rule_result_matches(config: RuleConfig, r: Result<Rule, ConfigError>) -> bool {
    match spec_rule_condition(opt_view(config.when), opt_view(config.diff_timeout)) {
        Err(e) => r == Err::<Rule, ConfigError>(e),
        Ok(c) => match spec_parse_action(opt_view(config.action), strings_view(config.keys@)) {
            Err(e) => r == Err::<Rule, ConfigError>(e),
            Ok(ks) => r matches Ok(rule) && rule.rule_type@ == c && rule.action@ == ks,
        },
    }
}

impl Rule {
    /// Validates a configuration entry into a rule.
    pub fn try_from(config: RuleConfig) -> (r: Result<Rule, ConfigError>)
        requires
            rule_config_fits(config),
        ensures
            rule_result_matches(config, r),
    {
        let rule_type = match parse_rule_condition(&config.when, &config.diff_timeout) {
            Ok(t) => t,
            Err(e) => {
                return Err(e);
            },
        };
        let action = match parse_action(&config.action, config.keys.as_slice()) {
            Ok(a) => a,
            Err(e) => {
                return Err(e);
            },
        };
        Ok(Rule { rule_type, action })
    }
}

/// A configuration entry that becomes a rule.
pub open spec fn rule_config_valid(c: RuleConfig) -> bool {
    &&& spec_rule_condition(opt_view(c.when), opt_view(c.diff_timeout)) is Ok
    &&& spec_parse_action(opt_view(c.action), strings_view(c.keys@)) is Ok
}

/// Why a configuration entry does not become a rule.
pub open spec fn rule_config_error(c: RuleConfig) -> ConfigError {
    match spec_rule_condition(opt_view(c.when), opt_view(c.diff_timeout)) {
        Err(e) => e,
        Ok(_) => match spec_parse_action(opt_view(c.action), strings_view(c.keys@)) {
            Err(e) => e,
            Ok(_) => ConfigError::UnknownAction,
        },
    }
}

impl RuleConfig {
    /// A copy of the entry.
    pub fn clone_config(&self) -> (c: RuleConfig)
        ensures
            c.when == self.when,
            c.diff_timeout == self.diff_timeout,
            c.action == self.action,
            c.keys@ == self.keys@,
    {
        RuleConfig {
            when: match &self.when {
                Some(a) => Some(a.clone()),
                None => None,
            },
            diff_timeout: match &self.diff_timeout {
                Some(a) => Some(a.clone()),
                None => None,
            },
            action: match &self.action {
                Some(a) => Some(a.clone()),
                None => None,
            },
            keys: crate::text::clone_strings(self.keys.as_slice()),
        }
    }
}

} // verus!
