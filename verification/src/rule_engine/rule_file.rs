//! Rule files: prioritized patterns with legacy commands.
use crate::config::error::ConfigError;
use crate::pattern::{spec_regex_compiles, Regex};
use crate::rule_engine::decision::{rules_view, ActionType, CompiledRule, EngineAction, RuleSpec};
use crate::text::{clone_strings, str_eq, strings_view};
use vstd::prelude::*;

verus! {

/// A rule file as loaded.
#[derive(Debug, Clone)]
pub struct RuleFile {
    pub rules: Vec<Rule>,
}

/// A rule as written in a rule file.
#[derive(Debug, Clone)]
pub struct Rule {
    pub priority: u32,
    pub pattern: String,
    pub command: String,
    pub args: Vec<String>,
}

/// The legacy commands.
#[derive(Debug, Clone, Copy, PartialEq, Eq, Structural)]
pub enum CmdKind {
    Entry,
    Resume,
}

/// The command a rule names, if it is known.
pub open spec fn spec_command(c: Seq<char>) -> Option<CmdKind> {
    if c == "entry"@ {
        Some(CmdKind::Entry)
    } else if c == "resume"@ {
        Some(CmdKind::Resume)
    } else {
        None
    }
}

/// A rule of the file compiled, or why it is refused: the pattern first,
/// then the command.
pub open spec fn spec_compile_rule(r: Rule) -> Result<RuleSpec, ConfigError> {
    if !spec_regex_compiles(r.pattern@) {
        Err(ConfigError::InvalidRegex)
    } else {
        match spec_command(r.command@) {
            None => Err(ConfigError::UnknownCommand),
            Some(c) => Ok(
                RuleSpec {
                    priority: r.priority,
                    pattern: r.pattern@,
                    action: EngineAction::Legacy(c, strings_view(r.args@)),
                },
            ),
        }
    }
}

/// Compiles one rule of a rule file.
pub fn compile_rule(rule: &Rule) -> (r: Result<CompiledRule, ConfigError>)
    ensures
        match spec_compile_rule(*rule) {
            Ok(s) => r matches Ok(c) && c@ == s,
            Err(e) => r matches Err(x) && x == e,
        },
{
    let regex = match Regex::new(rule.pattern.as_str()) {
        Ok(re) => re,
        Err(e) => {
            return Err(e);
        },
    };
    let command = if str_eq(rule.command.as_str(), "entry") {
        CmdKind::Entry
    } else if str_eq(rule.command.as_str(), "resume") {
        CmdKind::Resume
    } else {
        return Err(ConfigError::UnknownCommand);
    };
    Ok(CompiledRule {
        priority: rule.priority,
        regex,
        action: ActionType::Legacy(command, clone_strings(rule.args.as_slice())),
    })
}

/// `x` placed into `s` after every element of no greater priority, from the
/// back: the step of a stable insertion sort.
pub open spec fn insert_by_priority(s: Seq<RuleSpec>, x: RuleSpec) -> Seq<RuleSpec>
    decreases s.len(),
{
    if s.len() == 0 {
        seq![x]
    } else if s.last().priority <= x.priority {
        s.push(x)
    } else {
        insert_by_priority(s.drop_last(), x).push(s.last())
    }
}

/// The rules stably sorted by ascending priority: equal priorities keep
/// their order.
pub open spec fn sort_by_priority(s: Seq<RuleSpec>) -> Seq<RuleSpec>
    decreases s.len(),
{
    if s.len() == 0 {
        Seq::empty()
    } else {
        insert_by_priority(sort_by_priority(s.drop_last()), s.last())
    }
}

/// The rule file compiled, or the error of the first rule refused.
pub open spec fn spec_compile_all(rs: Seq<Rule>) -> Result<Seq<RuleSpec>, ConfigError>
    decreases rs.len(),
{
    if rs.len() == 0 {
        Ok(Seq::empty())
    } else {
        match spec_compile_all(rs.drop_last()) {
            Err(e) => Err(e),
            Ok(p) => match spec_compile_rule(rs.last()) {
                Err(e) => Err(e),
                Ok(c) => Ok(p.push(c)),
            },
        }
    }
}

/// Inserts `x` into `out` after every rule of no greater priority.
fn insert_rule(out: &mut Vec<CompiledRule>, x: CompiledRule)
    ensures
        rules_view(final(out)@) == insert_by_priority(rules_view(old(out)@), x@),
{
    let ghost s = rules_view(out@);
    let mut j: usize = out.len();
    assert(s.take(j as int) == s);
    assert(s.skip(j as int) =~= Seq::<RuleSpec>::empty());
    assert(insert_by_priority(s, x@) + Seq::<RuleSpec>::empty() == insert_by_priority(s, x@));
    while j > 0 && out[j - 1].priority > x.priority
        invariant
            j <= out@.len(),
            s == rules_view(out@),
            insert_by_priority(s, x@) == insert_by_priority(s.take(j as int), x@) + s.skip(
                j as int,
            ),
        decreases j,
    {
        proof {
            let t = s.take(j as int);
            assert(t.drop_last() == s.take(j - 1));
            assert(t.last() == s[j - 1]);
            assert(seq![s[j - 1]] + s.skip(j as int) == s.skip(j - 1));
            assert(insert_by_priority(t, x@) == insert_by_priority(s.take(j - 1), x@).push(s[j
                - 1]));
            assert(insert_by_priority(s.take(j - 1), x@).push(s[j - 1]) + s.skip(j as int)
                == insert_by_priority(s.take(j - 1), x@) + s.skip(j - 1));
        }
        j = j - 1;
    }
    proof {
        let t = s.take(j as int);
        if j > 0 {
            assert(t.last() == s[j - 1]);
            assert(insert_by_priority(t, x@) == t.push(x@));
        } else {
            assert(insert_by_priority(t, x@) == seq![x@]);
        }
        assert(t.push(x@) + s.skip(j as int) == s.take(j as int) + seq![x@] + s.skip(j as int));
    }
    out.insert(j, x);
    assert(rules_view(out@) =~= s.take(j as int) + seq![x@] + s.skip(j as int));
}

/// Compiles a rule file: every rule, in file order, then stably sorted by
/// ascending priority (a lower number comes first).
pub fn compile_rule_file(rule_file: RuleFile) -> (r: Result<Vec<CompiledRule>, ConfigError>)
    ensures
        match spec_compile_all(rule_file.rules@) {
            Ok(cs) => r matches Ok(v) && rules_view(v@) == sort_by_priority(cs),
            Err(e) => r matches Err(x) && x == e,
        },
{
    let rs = &rule_file.rules;
    let mut sorted: Vec<CompiledRule> = Vec::new();
    let mut i: usize = 0;
    while i < rs.len()
        invariant
            i <= rs@.len(),
            rs@ == rule_file.rules@,
            spec_compile_all(rs@.take(i as int)) matches Ok(cs) && rules_view(sorted@)
                == sort_by_priority(cs),
        decreases rs@.len() - i,
    {
        assert(rs@.take(i + 1).drop_last() == rs@.take(i as int));
        assert(rs@.take(i + 1).last() == rs@[i as int]);
        let ghost prev = spec_compile_all(rs@.take(i as int));
        match compile_rule(&rs[i]) {
            Ok(c) => {
                let ghost cv = c@;
                insert_rule(&mut sorted, c);
                proof {
                    let cs = prev->Ok_0;
                    assert(spec_compile_rule(rs@[i as int]) == Ok::<RuleSpec, ConfigError>(cv));
                    assert(spec_compile_all(rs@.take(i + 1)) == Ok::<Seq<RuleSpec>, ConfigError>(cs.push(cv)));
                    assert(cs.push(cv).drop_last() == cs);
                    assert(sort_by_priority(cs.push(cv)) == insert_by_priority(sort_by_priority(cs), cv));
                }
            },
            Err(e) => {
                proof {
                    lemma_compile_all_err_extends(rs@, (i + 1) as int);
                }
                return Err(e);
            },
        }
        i = i + 1;
    }
    assert(rs@.take(rs@.len() as int) == rs@);
    Ok(sorted)
}

proof fn lemma_compile_all_err_extends(rs: Seq<Rule>, k: int)
    requires
        0 <= k <= rs.len(),
        spec_compile_all(rs.take(k)) is Err,
    ensures
        spec_compile_all(rs) == spec_compile_all(rs.take(k)),
    decreases rs.len() - k,
{
    if k < rs.len() {
        assert(rs.take(k + 1).drop_last() == rs.take(k));
        lemma_compile_all_err_extends(rs, k + 1);
    } else {
        assert(rs.take(k) == rs);
    }
}

/// Priorities ascend along the list.
pub open spec fn sorted_by_priority(s: Seq<RuleSpec>) -> bool {
    forall|i: int, j: int| 0 <= i <= j < s.len() ==> s[i].priority <= s[j].priority
}

/// The rules of priority `p`, in their order.
pub open spec fn with_priority(s: Seq<RuleSpec>, p: u32) -> Seq<RuleSpec>
    decreases s.len(),
{
    if s.len() == 0 {
        Seq::empty()
    } else if s.last().priority == p {
        with_priority(s.drop_last(), p).push(s.last())
    } else {
        with_priority(s.drop_last(), p)
    }
}

proof fn lemma_insert_multiset(s: Seq<RuleSpec>, x: RuleSpec)
    ensures
        insert_by_priority(s, x).to_multiset() == s.to_multiset().insert(x),
        insert_by_priority(s, x).len() == s.len() + 1,
    decreases s.len(),
{
    broadcast use vstd::seq_lib::group_seq_properties;

    if s.len() == 0 {
        assert(seq![x] == Seq::<RuleSpec>::empty().push(x));
    } else if s.last().priority <= x.priority {
    } else {
        lemma_insert_multiset(s.drop_last(), x);
        assert(s.drop_last().push(s.last()) == s);
        assert(s.drop_last().to_multiset().insert(s.last()) == s.to_multiset());
        assert(s.to_multiset().insert(x) =~= s.drop_last().to_multiset().insert(x).insert(
            s.last(),
        ));
    }
}

proof fn lemma_insert_sorted(s: Seq<RuleSpec>, x: RuleSpec)
    requires
        sorted_by_priority(s),
    ensures
        sorted_by_priority(insert_by_priority(s, x)),
        forall|i: int|
            0 <= i < insert_by_priority(s, x).len() ==> (#[trigger] insert_by_priority(s, x)[i]
                == x || s.contains(insert_by_priority(s, x)[i])),
    decreases s.len(),
{
    if s.len() == 0 {
    } else if s.last().priority <= x.priority {
        let r = s.push(x);
        assert forall|i: int| 0 <= i < r.len() implies (#[trigger] r[i] == x || s.contains(r[i])) by {
            if i < s.len() {
                assert(r[i] == s[i]);
            }
        }
    } else {
        let d = s.drop_last();
        assert(sorted_by_priority(d));
        lemma_insert_sorted(d, x);
        let q = insert_by_priority(d, x);
        let r = q.push(s.last());
        assert forall|i: int| 0 <= i < q.len() implies #[trigger] q[i].priority <= s.last().priority by {
            if q[i] != x {
                let k = choose|k: int| 0 <= k < d.len() && d[k] == q[i];
                assert(s[k] == d[k]);
            }
        }
        assert forall|i: int, j: int| 0 <= i <= j < r.len() implies r[i].priority <= r[j].priority by {
            if j == r.len() - 1 {
                if i < q.len() {
                    assert(r[i] == q[i]);
                }
            } else {
                assert(r[i] == q[i] && r[j] == q[j]);
            }
        }
        assert forall|i: int| 0 <= i < r.len() implies (#[trigger] r[i] == x || s.contains(r[i])) by {
            if i < q.len() {
                assert(r[i] == q[i]);
                if q[i] != x {
                    let k = choose|k: int| 0 <= k < d.len() && d[k] == q[i];
                    assert(s[k] == d[k]);
                }
            } else {
                assert(r[i] == s[s.len() - 1]);
            }
        }
    }
}

proof fn lemma_sort_sorted(s: Seq<RuleSpec>)
    ensures
        sorted_by_priority(sort_by_priority(s)),
        sort_by_priority(s).to_multiset() == s.to_multiset(),
    decreases s.len(),
{
    broadcast use vstd::seq_lib::group_seq_properties;

    if s.len() > 0 {
        lemma_sort_sorted(s.drop_last());
        lemma_insert_sorted(sort_by_priority(s.drop_last()), s.last());
        lemma_insert_multiset(sort_by_priority(s.drop_last()), s.last());
        assert(s.drop_last().push(s.last()) == s);
    } else {
        assert(sort_by_priority(s) =~= s);
    }
}

proof fn lemma_insert_with_priority(s: Seq<RuleSpec>, x: RuleSpec, p: u32)
    requires
        sorted_by_priority(s),
    ensures
        with_priority(insert_by_priority(s, x), p) == if x.priority == p {
            with_priority(s, p).push(x)
        } else {
            with_priority(s, p)
        },
    decreases s.len(),
{
    if s.len() == 0 {
        assert(seq![x].drop_last() =~= Seq::<RuleSpec>::empty());
        assert(seq![x].last() == x);
        assert(insert_by_priority(s, x) == seq![x]);
        assert(with_priority(s, p) == Seq::<RuleSpec>::empty());
        assert(with_priority(Seq::<RuleSpec>::empty(), p) == Seq::<RuleSpec>::empty());
        assert(Seq::<RuleSpec>::empty().push(x) =~= seq![x]);
    } else if s.last().priority <= x.priority {
        assert(s.push(x).drop_last() == s);
        assert(s.push(x).last() == x);
        assert(insert_by_priority(s, x) == s.push(x));
    } else {
        let d = s.drop_last();
        assert(sorted_by_priority(d));
        lemma_insert_with_priority(d, x, p);
        let q = insert_by_priority(d, x);
        let l = s.last();
        assert(q.push(l).drop_last() == q);
        assert(q.push(l).last() == l);
        assert(insert_by_priority(s, x) == q.push(l));
        if l.priority == p {
            assert(with_priority(q.push(l), p) == with_priority(q, p).push(l));
            assert(with_priority(s, p) == with_priority(d, p).push(l));
        } else {
            assert(with_priority(q.push(l), p) == with_priority(q, p));
            assert(with_priority(s, p) == with_priority(d, p));
        }
    }
}

proof fn lemma_sort_with_priority(s: Seq<RuleSpec>, p: u32)
    ensures
        with_priority(sort_by_priority(s), p) == with_priority(s, p),
    decreases s.len(),
{
    if s.len() > 0 {
        lemma_sort_with_priority(s.drop_last(), p);
        lemma_sort_sorted(s.drop_last());
        lemma_insert_with_priority(sort_by_priority(s.drop_last()), s.last(), p);
    } else {
        assert(sort_by_priority(s) =~= s);
    }
}

/// Compiled rules come out in ascending priority (lower number first), as a
/// rearrangement of the file's rules in which rules of equal priority keep
/// their file order.
pub proof fn law_rules_sorted_stably_by_priority(cs: Seq<RuleSpec>)
    ensures
        sorted_by_priority(sort_by_priority(cs)),
        sort_by_priority(cs).to_multiset() == cs.to_multiset(),
        forall|p: u32| #[trigger] with_priority(sort_by_priority(cs), p) == with_priority(cs, p),
{
    lemma_sort_sorted(cs);
    assert forall|p: u32| #[trigger] with_priority(sort_by_priority(cs), p) == with_priority(cs, p) by {
        lemma_sort_with_priority(cs, p);
    }
}

} // verus!
