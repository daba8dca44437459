//! Entries of the configuration file that carry workflow actions and user
//! commands, and the manager that selects them by trigger type.
use crate::config::error::ConfigError;
use crate::config::helper::{parse_duration_chars, spec_parse_duration};
use crate::config::triggers_config::{event_fits, has_prefix, timer_duration};
use crate::config::types::{compile_action, spec_compile_action, ActionSpec, ActionType};
use crate::text::{chars_of, opt_view, starts_with, str_eq, strings_view};
use vstd::prelude::*;

verus! {

/// A trigger as written in the configuration file.
#[derive(Debug, Clone)]
pub struct TriggerConfig {
    pub name: String,
    pub event: String,
    pub action: Option<String>,
    pub keys: Vec<String>,
    pub workflow: Option<String>,
    pub args: Vec<String>,
    pub source: Option<String>,
    pub dedupe: bool,
}

/// A validated trigger.
#[derive(Debug, Clone)]
pub struct Trigger {
    pub name: String,
    pub trigger: TriggerType,
    pub action: ActionType,
    pub source: Option<String>,
    pub dedupe: bool,
}

/// When a trigger fires: at startup, on a user command, or every
/// `interval_secs` seconds.
#[derive(Debug, Clone, PartialEq)]
pub enum TriggerType {
    OnStart,
    UserCommand(String),
    Periodic { interval_secs: u64 },
}

/// A trigger type as values.
pub enum TriggerKind {
    OnStart,
    UserCommand(Seq<char>),
    Periodic(nat),
}

impl View for TriggerType {
    type V = TriggerKind;

    open spec fn view(&self) -> TriggerKind {
        match self {
            TriggerType::OnStart => TriggerKind::OnStart,
            TriggerType::UserCommand(c) => TriggerKind::UserCommand(c@),
            TriggerType::Periodic { interval_secs } => TriggerKind::Periodic(*interval_secs as nat),
        }
    }
}

/// The trigger type of an event: `timer:<duration>`, `startup`, or any other
/// text, which is a user command.
pub open spec fn spec_event_kind(event: Seq<char>) -> Result<TriggerKind, ConfigError> {
    if has_prefix(event, "timer:"@) {
        match spec_parse_duration(timer_duration(event)) {
            Ok(n) => Ok(TriggerKind::Periodic(n)),
            Err(e) => Err(e),
        }
    } else if event == "startup"@ {
        Ok(TriggerKind::OnStart)
    } else {
        Ok(TriggerKind::UserCommand(event))
    }
}

/// The trigger that a configuration entry describes, or why it is refused:
/// the event is checked first, then the action.
pub open spec fn trigger_result_matches(config: TriggerConfig, r: Result<Trigger, ConfigError>) -> bool {
    match spec_event_kind(config.event@) {
        Err(e) => r == Err::<Trigger, ConfigError>(e),
        Ok(k) => match spec_compile_action(
            opt_view(config.action),
            strings_view(config.keys@),
            opt_view(config.workflow),
            strings_view(config.args@),
        ) {
            Err(e) => r == Err::<Trigger, ConfigError>(e),
            Ok(a) => r matches Ok(tr) && tr.trigger@ == k && tr.action@ == a && tr.name
                == config.name && tr.source == config.source && tr.dedupe == config.dedupe,
        },
    }
}

/// Parses the event of an entry.
pub fn parse_event(event: &String) -> (r: Result<TriggerType, ConfigError>)
    requires
        event_fits(event@),
    ensures
        match spec_event_kind(event@) {
            Ok(k) => r matches Ok(t) && t@ == k,
            Err(e) => r == Err::<TriggerType, ConfigError>(e),
        },
{
    let ev = chars_of(event.as_str());
    let prefix = chars_of("timer:");
    if starts_with(ev.as_slice(), prefix.as_slice()) {
        let rest = &ev.as_slice()[prefix.len()..ev.len()];
        assert(rest@ == timer_duration(event@));
        match parse_duration_chars(rest) {
            Ok(n) => Ok(TriggerType::Periodic { interval_secs: n }),
            Err(e) => Err(e),
        }
    } else if str_eq(event.as_str(), "startup") {
        Ok(TriggerType::OnStart)
    } else {
        Ok(TriggerType::UserCommand(event.clone()))
    }
}

impl Trigger {
    /// Validates a configuration entry into a trigger.
    pub fn try_from(config: TriggerConfig) -> (r: Result<Trigger, ConfigError>)
        requires
            event_fits(config.event@),
        ensures
            trigger_result_matches(config, r),
    {
        let trigger = match parse_event(&config.event) {
            Ok(t) => t,
            Err(e) => {
                return Err(e);
            },
        };
        let action = match compile_action(
            &config.action,
            config.keys.as_slice(),
            &config.workflow,
            config.args.as_slice(),
        ) {
            Ok(a) => a,
            Err(e) => {
                return Err(e);
            },
        };
        Ok(Trigger {
            name: config.name,
            trigger,
            action,
            source: config.source,
            dedupe: config.dedupe,
        })
    }
}

/// A trigger as values.
pub struct TriggerSpec {
    pub name: Seq<char>,
    pub trigger: TriggerKind,
    pub action: ActionSpec,
    pub source: Option<Seq<char>>,
    pub dedupe: bool,
}

impl View for Trigger {
    type V = TriggerSpec;

    open spec fn view(&self) -> TriggerSpec {
        TriggerSpec {
            name: self.name@,
            trigger: self.trigger@,
            action: self.action@,
            source: opt_view(self.source),
            dedupe: self.dedupe,
        }
    }
}

/// The views of a list of triggers.
pub open spec fn triggers_view(ts: Seq<Trigger>) -> Seq<TriggerSpec> {
    ts.map_values(|t: Trigger| t@)
}

/// A startup trigger.
pub open spec fn is_on_start(t: TriggerSpec) -> bool {
    t.trigger is OnStart
}

/// A periodic trigger.
pub open spec fn is_periodic(t: TriggerSpec) -> bool {
    t.trigger is Periodic
}

/// The triggers of the configuration, from which the trigger system takes
/// the startup and the periodic ones.
#[derive(Debug, Clone)]
pub struct TriggerManager {
    triggers: Vec<Trigger>,
}

impl View for TriggerManager {
    type V = Seq<TriggerSpec>;

    closed spec fn view(&self) -> Seq<TriggerSpec> {
        triggers_view(self.triggers@)
    }
}

/// The triggers that satisfy `p`, in their order.
pub fn select_triggers(ts: &[Trigger], on_start: bool) -> (out: Vec<Trigger>)
    ensures
        on_start ==> triggers_view(out@) == triggers_view(ts@).filter(
            |t: TriggerSpec| is_on_start(t),
        ),
        !on_start ==> triggers_view(out@) == triggers_view(ts@).filter(
            |t: TriggerSpec| is_periodic(t),
        ),
{
    let ghost p: spec_fn(TriggerSpec) -> bool = if on_start {
        |t: TriggerSpec| is_on_start(t)
    } else {
        |t: TriggerSpec| is_periodic(t)
    };
    let ghost tv = triggers_view(ts@);
    let mut out: Vec<Trigger> = Vec::new();
    let mut i: usize = 0;
    while i < ts.len()
        invariant
            i <= ts@.len(),
            p == (if on_start {
                |t: TriggerSpec| is_on_start(t)
            } else {
                |t: TriggerSpec| is_periodic(t)
            }),
            tv == triggers_view(ts@),
            triggers_view(out@) == tv.take(i as int).filter(p),
        decreases ts@.len() - i,
    {
        let t = &ts[i];
        let keep = if on_start {
            match t.trigger {
                TriggerType::OnStart => true,
                _ => false,
            }
        } else {
            match t.trigger {
                TriggerType::Periodic { .. } => true,
                _ => false,
            }
        };
        proof {
            reveal(Seq::filter);
            assert(tv.take(i + 1).drop_last() == tv.take(i as int));
            assert(tv.take(i + 1).last() == tv[i as int]);
        }
        if keep {
            let ghost before = triggers_view(out@);
            out.push(t.clone_trigger());
            assert(triggers_view(out@) == before.push(tv[i as int]));
        } else {
            assert(triggers_view(out@) == tv.take(i as int).filter(p));
        }
        i = i + 1;
    }
    assert(tv.take(tv.len() as int) == tv);
    out
}

impl Trigger {
    /// A copy of the trigger.
    pub fn clone_trigger(&self) -> (r: Trigger)
        ensures
            r@ == self@,
    {
        Trigger {
            name: self.name.clone(),
            trigger: self.trigger.clone_type(),
            action: self.action.clone_action(),
            source: match &self.source {
                Some(s) => Some(s.clone()),
                None => None,
            },
            dedupe: self.dedupe,
        }
    }
}

impl TriggerType {
    /// A copy of the trigger type.
    pub fn clone_type(&self) -> (r: TriggerType)
        ensures
            r@ == self@,
    {
        match self {
            TriggerType::OnStart => TriggerType::OnStart,
            TriggerType::UserCommand(c) => TriggerType::UserCommand(c.clone()),
            TriggerType::Periodic { interval_secs } => TriggerType::Periodic {
                interval_secs: *interval_secs,
            },
        }
    }
}

impl TriggerManager {
    /// Creates a trigger manager.
    pub fn new(triggers: Vec<Trigger>) -> (m: TriggerManager)
        ensures
            m@ == triggers_view(triggers@),
    {
        TriggerManager { triggers }
    }

    /// The startup triggers, in configuration order.
    pub fn get_on_start_triggers(&self) -> (r: Vec<Trigger>)
        ensures
            triggers_view(r@) == self@.filter(|t: TriggerSpec| is_on_start(t)),
    {
        select_triggers(self.triggers.as_slice(), true)
    }

    /// The periodic triggers, in configuration order.
    pub fn get_periodic_triggers(&self) -> (r: Vec<Trigger>)
        ensures
            triggers_view(r@) == self@.filter(|t: TriggerSpec| is_periodic(t)),
    {
        select_triggers(self.triggers.as_slice(), false)
    }
}

/// The fields of an event and an action that make an entry valid.
pub open spec fn trigger_config_valid(c: TriggerConfig) -> bool {
    &&& spec_event_kind(c.event@) is Ok
    &&& spec_compile_action(
        opt_view(c.action),
        strings_view(c.keys@),
        opt_view(c.workflow),
        strings_view(c.args@),
    ) is Ok
}

/// Why an entry is refused.
pub open spec fn trigger_config_error(c: TriggerConfig) -> ConfigError {
    match spec_event_kind(c.event@) {
        Err(e) => e,
        Ok(_) => match spec_compile_action(
            opt_view(c.action),
            strings_view(c.keys@),
            opt_view(c.workflow),
            strings_view(c.args@),
        ) {
            Err(e) => e,
            Ok(_) => ConfigError::UnknownEvent,
        },
    }
}

impl TriggerConfig {
    /// A copy of the entry.
    pub fn clone_config(&self) -> (c: TriggerConfig)
        ensures
            c.name == self.name,
            c.event == self.event,
            c.action == self.action,
            c.keys@ == self.keys@,
            c.workflow == self.workflow,
            c.args@ == self.args@,
            c.source == self.source,
            c.dedupe == self.dedupe,
    {
        TriggerConfig {
            name: self.name.clone(),
            event: self.event.clone(),
            action: match &self.action {
                Some(a) => Some(a.clone()),
                None => None,
            },
            keys: crate::text::clone_strings(self.keys.as_slice()),
            workflow: match &self.workflow {
                Some(a) => Some(a.clone()),
                None => None,
            },
            args: crate::text::clone_strings(self.args.as_slice()),
            source: match &self.source {
                Some(s) => Some(s.clone()),
                None => None,
            },
            dedupe: self.dedupe,
        }
    }
}

} // verus!
