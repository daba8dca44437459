//! Matching terminal captures against prioritized rules.
use crate::pattern::{groups_view, spec_regex_captures, Regex};
use crate::rule::capture::{law_resolve_fills_its_group, resolve_capture_groups_in_vec, spec_resolve_in_vec};
use crate::text::{dollar_free, placeholder};
use crate::rule_engine::rule_file::CmdKind;
use crate::text::{clone_strings, strings_view};
use vstd::prelude::*;

verus! {

/// What a rule of a rule file does.
#[derive(Debug, Clone, PartialEq)]
pub enum ActionType {
    SendKeys(Vec<String>),
    Workflow(String, Vec<String>),
    Legacy(CmdKind, Vec<String>),
}

/// An action of a rule file as values.
pub enum EngineAction {
    SendKeys(Seq<Seq<char>>),
    Workflow(Seq<char>, Seq<Seq<char>>),
    Legacy(CmdKind, Seq<Seq<char>>),
}

impl View for ActionType {
    type V = EngineAction;

    open spec fn view(&self) -> EngineAction {
        match self {
            ActionType::SendKeys(k) => EngineAction::SendKeys(strings_view(k@)),
            ActionType::Workflow(w, a) => EngineAction::Workflow(w@, strings_view(a@)),
            ActionType::Legacy(c, a) => EngineAction::Legacy(*c, strings_view(a@)),
        }
    }
}

/// A compiled rule: its priority (lower first), its pattern and its action.
#[derive(Debug, Clone)]
pub struct CompiledRule {
    pub priority: u32,
    pub regex: Regex,
    pub action: ActionType,
}

/// A compiled rule as values.
pub struct RuleSpec {
    pub priority: u32,
    pub pattern: Seq<char>,
    pub action: EngineAction,
}

impl View for CompiledRule {
    type V = RuleSpec;

    open spec fn view(&self) -> RuleSpec {
        RuleSpec { priority: self.priority, pattern: self.regex@, action: self.action@ }
    }
}

/// The views of a list of rules.
pub open spec fn rules_view(rs: Seq<CompiledRule>) -> Seq<RuleSpec> {
    rs.map_values(|r: CompiledRule| r@)
}

/// The texts of the groups that took part in a match, group 0 (the whole
/// match) left out.
pub open spec fn present_groups(g: Seq<Option<Seq<char>>>) -> Seq<Seq<char>>
    decreases g.len(),
{
    if g.len() <= 1 {
        Seq::empty()
    } else {
        let p = present_groups(g.drop_last());
        match g.last() {
            Some(m) => p.push(m),
            None => p,
        }
    }
}

/// A matched rule's action with the captured groups applied: placeholders
/// filled in keys and workflow arguments; a legacy command gets the groups
/// appended to its arguments.
pub open spec fn spec_resolve_action(a: EngineAction, groups: Seq<Seq<char>>) -> EngineAction {
    match a {
        EngineAction::SendKeys(k) => EngineAction::SendKeys(spec_resolve_in_vec(k, groups)),
        EngineAction::Workflow(w, args) => EngineAction::Workflow(w, spec_resolve_in_vec(args, groups)),
        EngineAction::Legacy(c, args) => EngineAction::Legacy(c, args + groups),
    }
}

/// The action for a capture: that of the first rule, from position `i` on,
/// whose pattern matches; `Resume` with no arguments if none does.
pub open spec fn spec_decide_action(rules: Seq<RuleSpec>, capture: Seq<char>, i: int) -> EngineAction
    decreases rules.len() - i,
{
    if i < 0 || i >= rules.len() {
        EngineAction::Legacy(CmdKind::Resume, Seq::empty())
    } else {
        match spec_regex_captures(rules[i].pattern, capture) {
            Some(g) => spec_resolve_action(rules[i].action, present_groups(g)),
            None => spec_decide_action(rules, capture, i + 1),
        }
    }
}

/// The groups of a match that took part, group 0 left out.
pub fn present_group_texts(groups: &Vec<Option<String>>) -> (r: Vec<String>)
    ensures
        strings_view(r@) == present_groups(groups_view(groups@)),
{
    let ghost g = groups_view(groups@);
    let mut out: Vec<String> = Vec::new();
    if groups.len() <= 1 {
        return out;
    }
    let mut j: usize = 1;
    assert(g.take(1).len() == 1);
    while j < groups.len()
        invariant
            1 <= j <= groups@.len(),
            g == groups_view(groups@),
            strings_view(out@) == present_groups(g.take(j as int)),
        decreases groups@.len() - j,
    {
        assert(g.take(j + 1).drop_last() == g.take(j as int));
        assert(g.take(j + 1).last() == g[j as int]);
        let ghost before = strings_view(out@);
        match &groups[j] {
            Some(m) => {
                out.push(m.clone());
                assert(strings_view(out@) == before.push(m@));
            },
            None => {},
        }
        j = j + 1;
    }
    assert(g.take(groups@.len() as int) == g);
    out
}

/// Appends copies of `extra` to `base`.
fn append_strings(base: &[String], extra: &[String]) -> (r: Vec<String>)
    ensures
        strings_view(r@) == strings_view(base@) + strings_view(extra@),
{
    let mut out = clone_strings(base);
    let mut i: usize = 0;
    while i < extra.len()
        invariant
            i <= extra@.len(),
            strings_view(out@) == strings_view(base@) + strings_view(extra@.take(i as int)),
        decreases extra@.len() - i,
    {
        let ghost before = strings_view(out@);
        out.push(extra[i].clone());
        assert(strings_view(out@) == before.push(extra@[i as int]@));
        assert(extra@.take(i + 1) == extra@.take(i as int).push(extra@[i as int]));
        assert(strings_view(extra@.take(i + 1)) == strings_view(extra@.take(i as int)).push(
            extra@[i as int]@,
        ));
        i = i + 1;
    }
    assert(extra@.take(extra@.len() as int) == extra@);
    out
}

/// Matches a capture against rules in priority order (already sorted) and
/// returns the first matching rule's action with its capture groups
/// resolved; `Resume` with no arguments when no rule matches.
pub fn decide_action(capture: &str, rules: &[CompiledRule]) -> (r: ActionType)
    ensures
        r@ == spec_decide_action(rules_view(rules@), capture@, 0),
{
    let ghost rv = rules_view(rules@);
    let mut i: usize = 0;
    while i < rules.len()
        invariant
            i <= rules@.len(),
            rv == rules_view(rules@),
            spec_decide_action(rv, capture@, 0) == spec_decide_action(rv, capture@, i as int),
        decreases rules@.len() - i,
    {
        let rule = &rules[i];
        match rule.regex.captures(capture) {
            Some(groups) => {
                let captured = present_group_texts(&groups);
                let resolved = match &rule.action {
                    ActionType::SendKeys(keys) => ActionType::SendKeys(
                        resolve_capture_groups_in_vec(keys.as_slice(), captured.as_slice()),
                    ),
                    ActionType::Workflow(w, args) => ActionType::Workflow(
                        w.clone(),
                        resolve_capture_groups_in_vec(args.as_slice(), captured.as_slice()),
                    ),
                    ActionType::Legacy(c, args) => ActionType::Legacy(
                        *c,
                        append_strings(args.as_slice(), captured.as_slice()),
                    ),
                };
                return resolved;
            },
            None => {},
        }
        i = i + 1;
    }
    let none: Vec<String> = Vec::new();
    assert(strings_view(none@) =~= Seq::<Seq<char>>::empty());
    ActionType::Legacy(CmdKind::Resume, none)
}

/// The command and arguments of the decided action: a legacy action's own,
/// `Resume` with no arguments for any other.
pub open spec fn spec_decide_cmd(a: EngineAction) -> (CmdKind, Seq<Seq<char>>) {
    match a {
        EngineAction::Legacy(c, args) => (c, args),
        _ => (CmdKind::Resume, Seq::empty()),
    }
}

/// The command form of [`decide_action`].
pub fn decide_cmd(capture: &str, rules: &[CompiledRule]) -> (r: (CmdKind, Vec<String>))
    ensures
        (r.0, strings_view(r.1@)) == spec_decide_cmd(spec_decide_action(rules_view(rules@), capture@, 0)),
{
    let action = decide_action(capture, rules);
    match action {
        ActionType::Legacy(c, args) => (c, args),
        _ => {
            let v: Vec<String> = Vec::new();
            assert(strings_view(v@) =~= Seq::<Seq<char>>::empty());
            (CmdKind::Resume, v)
        },
    }
}


proof fn lemma_decide_skips(rules: Seq<RuleSpec>, capture: Seq<char>, i: int, j: int)
    requires
        0 <= i <= j <= rules.len(),
        forall|k: int| i <= k < j ==> spec_regex_captures(#[trigger] rules[k].pattern, capture) is None,
    ensures
        spec_decide_action(rules, capture, i) == spec_decide_action(rules, capture, j),
    decreases j - i,
{
    if i < j {
        lemma_decide_skips(rules, capture, i + 1, j);
    }
}

/// When every group of a match took part, the groups handed to an action
/// are groups `1, 2, ...` in order.
pub proof fn law_present_groups_in_order(g: Seq<Option<Seq<char>>>)
    requires
        forall|k: int| 1 <= k < g.len() ==> (#[trigger] g[k]) is Some,
    ensures
        present_groups(g).len() == if g.len() == 0 { 0 } else { g.len() - 1 },
        forall|k: int| 0 <= k < present_groups(g).len() ==> Some(#[trigger] present_groups(g)[k]) == g[k + 1],
    decreases g.len(),
{
    if g.len() > 1 {
        let init = g.drop_last();
        assert forall|k: int| 1 <= k < init.len() implies (#[trigger] init[k]) is Some by {
            assert(init[k] == g[k]);
        }
        law_present_groups_in_order(init);
        let p = present_groups(init);
        assert forall|k: int| 0 <= k < present_groups(g).len() implies Some(#[trigger] present_groups(g)[k]) == g[k + 1] by {
            if k < p.len() {
                assert(init[k + 1] == g[k + 1]);
            }
        }
    }
}

/// The first rule that matches decides, with its placeholders filled: where
/// its action sends keys or starts a workflow, a key or argument whose only
/// `$` starts `${n}` comes out with the `n`-th group that took part in its
/// place (the rest unchanged, the other keys or arguments in their places),
/// and a legacy command gets those groups after its arguments.
pub proof fn law_first_match_fills_placeholders(
    rules: Seq<RuleSpec>,
    capture: Seq<char>,
    j: int,
    i: int,
    a: Seq<char>,
    b: Seq<char>,
    n: nat,
)
    requires
        0 <= j < rules.len(),
        spec_regex_captures(rules[j].pattern, capture) is Some,
        forall|k: int| 0 <= k < j ==> spec_regex_captures(#[trigger] rules[k].pattern, capture) is None,
        1 <= n <= present_groups(spec_regex_captures(rules[j].pattern, capture).unwrap()).len(),
        dollar_free(a),
        dollar_free(b),
        dollar_free(present_groups(spec_regex_captures(rules[j].pattern, capture).unwrap())[n - 1]),
    ensures
        ({
            let gs = present_groups(spec_regex_captures(rules[j].pattern, capture).unwrap());
            let d = spec_decide_action(rules, capture, 0);
            match rules[j].action {
                EngineAction::SendKeys(ks) => d matches EngineAction::SendKeys(out) && out.len()
                    == ks.len() && ((0 <= i < ks.len() && ks[i] == a + placeholder(n) + b) ==> out[i]
                    == a + gs[n - 1] + b),
                EngineAction::Workflow(w, args) => d matches EngineAction::Workflow(w2, out) && w2
                    == w && out.len() == args.len() && ((0 <= i < args.len() && args[i] == a
                    + placeholder(n) + b) ==> out[i] == a + gs[n - 1] + b),
                EngineAction::Legacy(c, args) => d == EngineAction::Legacy(c, args + gs),
            }
        }),
{
    lemma_decide_skips(rules, capture, 0, j);
    let gs = present_groups(spec_regex_captures(rules[j].pattern, capture).unwrap());
    law_resolve_fills_its_group(a, b, gs, n);
}

} // verus!
