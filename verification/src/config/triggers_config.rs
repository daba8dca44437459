//! Triggers: entries started by system events rather than terminal output.
use crate::config::error::ConfigError;
use crate::config::helper::{
    duration_fits, parse_action, parse_duration_chars, spec_parse_action, spec_parse_duration,
    ActionType,
};
use crate::text::{chars_of, opt_view, starts_with, str_eq, strings_view};
use vstd::prelude::*;

verus! {

/// A trigger as written in the configuration file.
#[derive(Debug, Clone)]
pub struct TriggerConfig {
    pub name: String,
    pub event: String,
    pub action: Option<String>,
    pub keys: Vec<String>,
    pub source: Option<String>,
    pub dedupe: bool,
}

/// A validated trigger.
#[derive(Debug, Clone)]
pub struct Trigger {
    pub name: String,
    pub trigger: TriggerType,
    pub action: ActionType,
    pub source: Option<String>,
    pub dedupe: bool,
}

/// When a trigger fires: once at startup, or every `interval_secs` seconds.
#[derive(Debug, Clone, Copy, PartialEq, Eq, Structural)]
pub enum TriggerType {
    OnStart,
    Periodic { interval_secs: u64 },
}

/// `s` begins with `p`.
pub open spec fn has_prefix(s: Seq<char>, p: Seq<char>) -> bool {
    p.len() <= s.len() && s.take(p.len() as int) == p
}

/// The duration text of a `timer:<duration>` event.
pub open spec fn timer_duration(event: Seq<char>) -> Seq<char> {
    event.skip("timer:"@.len() as int)
}

/// An event whose timer duration, if it has one, fits in a `u64` number of
/// seconds.
pub open spec fn event_fits(event: Seq<char>) -> bool {
    has_prefix(event, "timer:"@) ==> duration_fits(timer_duration(event))
}

/// The trigger type of an event, or why it is refused.
pub open spec fn spec_trigger_type(event: Seq<char>) -> Result<TriggerType, ConfigError> {
    if has_prefix(event, "timer:"@) {
        match spec_parse_duration(timer_duration(event)) {
            Ok(n) => Ok(TriggerType::Periodic { interval_secs: n as u64 }),
            Err(e) => Err(e),
        }
    } else if event == "startup"@ {
        Ok(TriggerType::OnStart)
    } else {
        Err(ConfigError::UnknownEvent)
    }
}

/// The trigger that a configuration entry describes, or why it is refused:
/// the event is checked first, then the action.
pub open spec fn trigger_result_matches(config: TriggerConfig, r: Result<Trigger, ConfigError>) -> bool {
    match spec_trigger_type(config.event@) {
        Err(e) => r == Err::<Trigger, ConfigError>(e),
        Ok(t) => match spec_parse_action(opt_view(config.action), strings_view(config.keys@)) {
            Err(e) => r == Err::<Trigger, ConfigError>(e),
            Ok(ks) => r matches Ok(tr) && tr.trigger == t && tr.action@ == ks && tr.name
                == config.name && tr.source == config.source && tr.dedupe == config.dedupe,
        },
    }
}

/// Whether the event's timer, if it has one, fits in a `u64` number of
/// seconds.
pub fn event_within_range(event: &str) -> (b: bool)
    ensures
        b == event_fits(event@),
{
    let ev = chars_of(event);
    let prefix = chars_of("timer:");
    if starts_with(ev.as_slice(), prefix.as_slice()) {
        let rest = &ev.as_slice()[prefix.len()..ev.len()];
        assert(rest@ == timer_duration(event@));
        crate::config::helper::duration_within_range(rest)
    } else {
        true
    }
}

/// Parses the event of a trigger.
pub fn parse_trigger_type(event: &str) -> (r: Result<TriggerType, ConfigError>)
    requires
        event_fits(event@),
    ensures
        r == spec_trigger_type(event@),
{
    let ev = chars_of(event);
    let prefix = chars_of("timer:");
    if starts_with(ev.as_slice(), prefix.as_slice()) {
        let rest = &ev.as_slice()[prefix.len()..ev.len()];
        assert(rest@ == timer_duration(event@));
        match parse_duration_chars(rest) {
            Ok(n) => Ok(TriggerType::Periodic { interval_secs: n }),
            Err(e) => Err(e),
        }
    } else if str_eq(event, "startup") {
        Ok(TriggerType::OnStart)
    } else {
        Err(ConfigError::UnknownEvent)
    }
}

impl Trigger {
    /// Validates a configuration entry into a trigger.
    pub fn try_from(config: TriggerConfig) -> (r: Result<Trigger, ConfigError>)
        requires
            event_fits(config.event@),
        ensures
            trigger_result_matches(config, r),
    {
        let trigger = match parse_trigger_type(config.event.as_str()) {
            Ok(t) => t,
            Err(e) => {
                return Err(e);
            },
        };
        let action = match parse_action(&config.action, config.keys.as_slice()) {
            Ok(a) => a,
            Err(e) => {
                return Err(e);
            },
        };
        Ok(Trigger {
            name: config.name,
            trigger,
            action,
            source: config.source,
            dedupe: config.dedupe,
        })
    }
}

/// A configuration entry that becomes a trigger.
pub open spec fn trigger_config_valid(c: TriggerConfig) -> bool {
    &&& spec_trigger_type(c.event@) is Ok
    &&& spec_parse_action(opt_view(c.action), strings_view(c.keys@)) is Ok
}

/// Why a configuration entry does not become a trigger.
pub open spec fn trigger_config_error(c: TriggerConfig) -> ConfigError {
    match spec_trigger_type(c.event@) {
        Err(e) => e,
        Ok(_) => match spec_parse_action(opt_view(c.action), strings_view(c.keys@)) {
            Err(e) => e,
            Ok(_) => ConfigError::UnknownEvent,
        },
    }
}

impl TriggerConfig {
    /// A copy of the entry.
    pub fn clone_config(&self) -> (c: TriggerConfig)
        ensures
            c.name == self.name,
            c.event == self.event,
            c.action == self.action,
            c.keys@ == self.keys@,
            c.source == self.source,
            c.dedupe == self.dedupe,
    {
        TriggerConfig {
            name: self.name.clone(),
            event: self.event.clone(),
            action: match &self.action {
                Some(a) => Some(a.clone()),
                None => None,
            },
            keys: crate::text::clone_strings(self.keys.as_slice()),
            source: match &self.source {
                Some(s) => Some(s.clone()),
                None => None,
            },
            dedupe: self.dedupe,
        }
    }
}

} // verus!
