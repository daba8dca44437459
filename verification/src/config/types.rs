//! Actions of the entries and rules of a configuration file.
use crate::config::error::ConfigError;
use crate::text::{clone_strings, opt_view, str_eq, strings_view};
use vstd::prelude::*;

verus! {

/// What an entry or a rule does: send keys, or run a named workflow.
#[derive(Debug, Clone, PartialEq)]
pub enum ActionType {
    SendKeys(Vec<String>),
    Workflow(String, Vec<String>),
}

/// An action as values.
pub enum ActionSpec {
    SendKeys(Seq<Seq<char>>),
    Workflow(Seq<char>, Seq<Seq<char>>),
}

impl View for ActionType {
    type V = ActionSpec;

    open spec fn view(&self) -> ActionSpec {
        match self {
            ActionType::SendKeys(keys) => ActionSpec::SendKeys(strings_view(keys@)),
            ActionType::Workflow(name, args) => ActionSpec::Workflow(name@, strings_view(args@)),
        }
    }
}

/// The action that the `action`, `keys`, `workflow` and `args` fields
/// describe, or why they are refused.
pub open spec fn spec_compile_action(
    action: Option<Seq<char>>,
    keys: Seq<Seq<char>>,
    workflow: Option<Seq<char>>,
    args: Seq<Seq<char>>,
) -> Result<ActionSpec, ConfigError> {
    match action {
        None => Err(ConfigError::MissingAction),
        Some(a) => if a == "send_keys"@ {
            if keys.len() == 0 {
                Err(ConfigError::MissingKeys)
            } else {
                Ok(ActionSpec::SendKeys(keys))
            }
        } else if a == "workflow"@ {
            match workflow {
                None => Err(ConfigError::MissingWorkflow),
                Some(w) => Ok(ActionSpec::Workflow(w, args)),
            }
        } else {
            Err(ConfigError::UnknownAction)
        },
    }
}

/// Whether a compiled action matches its specification.
pub open spec fn action_result_matches(
    r: Result<ActionType, ConfigError>,
    s: Result<ActionSpec, ConfigError>,
) -> bool {
    match s {
        Ok(a) => r matches Ok(x) && x@ == a,
        Err(e) => r == Err::<ActionType, ConfigError>(e),
    }
}

/// Compiles the action fields of an entry or a rule.
pub fn compile_action(
    action: &Option<String>,
    keys: &[String],
    workflow: &Option<String>,
    args: &[String],
) -> (r: Result<ActionType, ConfigError>)
    ensures
        action_result_matches(
            r,
            spec_compile_action(
                opt_view(*action),
                strings_view(keys@),
                opt_view(*workflow),
                strings_view(args@),
            ),
        ),
{
    match action {
        None => Err(ConfigError::MissingAction),
        Some(a) => {
            if str_eq(a.as_str(), "send_keys") {
                if keys.len() == 0 {
                    Err(ConfigError::MissingKeys)
                } else {
                    Ok(ActionType::SendKeys(clone_strings(keys)))
                }
            } else if str_eq(a.as_str(), "workflow") {
                match workflow {
                    None => Err(ConfigError::MissingWorkflow),
                    Some(w) => Ok(ActionType::Workflow(w.clone(), clone_strings(args))),
                }
            } else {
                Err(ConfigError::UnknownAction)
            }
        },
    }
}

impl ActionType {
    /// A copy of the action.
    pub fn clone_action(&self) -> (r: ActionType)
        ensures
            r@ == self@,
    {
        match self {
            ActionType::SendKeys(keys) => ActionType::SendKeys(clone_strings(keys.as_slice())),
            ActionType::Workflow(name, args) => ActionType::Workflow(
                name.clone(),
                clone_strings(args.as_slice()),
            ),
        }
    }
}


/// A compiled action carries what was configured, whole and in order: a
/// `send_keys` action with keys sends exactly those keys, and a `workflow`
/// action with a workflow name runs that workflow with exactly the
/// configured arguments, whatever the other fields hold.
pub proof fn law_compiled_action_carries_its_fields(
    keys: Seq<Seq<char>>,
    workflow: Option<Seq<char>>,
    args: Seq<Seq<char>>,
)
    ensures
        keys.len() > 0 ==> (spec_compile_action(Some("send_keys"@), keys, workflow, args) matches Ok(
            ActionSpec::SendKeys(k),
        ) && k == keys),
        workflow is Some ==> (spec_compile_action(Some("workflow"@), keys, workflow, args) matches Ok(
            ActionSpec::Workflow(name, a),
        ) && name == workflow.unwrap() && a.len() == args.len() && forall|i: int|
            0 <= i < args.len() ==> a[i] == args[i]),
{
    reveal_strlit("send_keys");
    reveal_strlit("workflow");
    assert("workflow"@ != "send_keys"@) by {
        assert("workflow"@[0] != "send_keys"@[0]);
    }
}


/// Each refusal has its cause: no action gives `MissingAction`; `send_keys`
/// without keys gives `MissingKeys`; `workflow` without a name gives
/// `MissingWorkflow`; any other action name gives `UnknownAction`.
pub proof fn law_action_refusals(
    action: Option<Seq<char>>,
    keys: Seq<Seq<char>>,
    workflow: Option<Seq<char>>,
    args: Seq<Seq<char>>,
)
    ensures
        action is None ==> spec_compile_action(action, keys, workflow, args) == Err::<ActionSpec, ConfigError>(
            ConfigError::MissingAction,
        ),
        (action == Some("send_keys"@) && keys.len() == 0) ==> spec_compile_action(action, keys, workflow, args)
            == Err::<ActionSpec, ConfigError>(ConfigError::MissingKeys),
        (action == Some("workflow"@) && workflow is None) ==> spec_compile_action(action, keys, workflow, args)
            == Err::<ActionSpec, ConfigError>(ConfigError::MissingWorkflow),
        (action is Some && action != Some("send_keys"@) && action != Some("workflow"@))
            ==> spec_compile_action(action, keys, workflow, args) == Err::<ActionSpec, ConfigError>(
            ConfigError::UnknownAction,
        ),
{
    reveal_strlit("send_keys");
    reveal_strlit("workflow");
    assert("workflow"@ != "send_keys"@) by {
        assert("workflow"@[0] != "send_keys"@[0]);
    }
}

} // verus!
