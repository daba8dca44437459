use vstd::prelude::*;

verus! {

/// Why a configuration entry was refused.
#[derive(Debug, Clone, Copy, PartialEq, Eq, Structural)]
pub enum ConfigError {
    /// A duration was the empty string.
    EmptyDuration,
    /// A duration did not end with `s`, `m` or `h`.
    InvalidDurationUnit,
    /// The number before a duration's unit was not a `u64`.
    InvalidDurationNumber,
    /// No `action` field was given.
    MissingAction,
    /// A `send_keys` action had no keys.
    MissingKeys,
    /// A `workflow` action had no `workflow` field.
    MissingWorkflow,
    /// The `action` field named no known action.
    UnknownAction,
    /// A pattern was not a valid regular expression.
    InvalidRegex,
    /// A rule had both `when` and `diff_timeout`.
    BothWhenAndDiffTimeout,
    /// A rule had neither `when` nor `diff_timeout`.
    NeitherWhenNorDiffTimeout,
    /// A trigger's event was neither `startup` nor `timer:<duration>`.
    UnknownEvent,
    /// A rule file's command was neither `entry` nor `resume`.
    UnknownCommand,
}

} // verus!
