//! Filling the `${1}` placeholder of an action with a source line.
use crate::config::types::{ActionSpec, ActionType};
use crate::text::{
    chars_of, placeholder, placeholder_chars, replace_all, replace_chars, replace_each,
    replace_in_strings, string_of,
};
use vstd::prelude::*;

verus! {

/// The action with `${1}` replaced by `value` in every key, and in a
/// workflow's name and arguments.
pub open spec fn spec_resolve_source(action: ActionSpec, value: Seq<char>) -> ActionSpec {
    let p = placeholder(1);
    match action {
        ActionSpec::SendKeys(keys) => ActionSpec::SendKeys(replace_each(keys, p, value)),
        ActionSpec::Workflow(name, args) => ActionSpec::Workflow(
            replace_all(name, p, value),
            replace_each(args, p, value),
        ),
    }
}

/// Resolves `${1}` placeholders in an action with the content of a source line.
pub fn resolve_source_placeholders(action: &ActionType, value: &str) -> (r: ActionType)
    ensures
        r@ == spec_resolve_source(action@, value@),
{
    let p = placeholder_chars(1);
    let v = chars_of(value);
    match action {
        ActionType::SendKeys(keys) => {
            ActionType::SendKeys(replace_in_strings(keys.as_slice(), p.as_slice(), v.as_slice()))
        },
        ActionType::Workflow(name, args) => {
            let n = chars_of(name.as_str());
            let rn = replace_chars(n.as_slice(), p.as_slice(), v.as_slice());
            ActionType::Workflow(
                string_of(rn.as_slice()),
                replace_in_strings(args.as_slice(), p.as_slice(), v.as_slice()),
            )
        },
    }
}

} // verus!
