//! Pattern rules: the action for a line of terminal output.
use crate::config::error::ConfigError;
use crate::config::helper::ActionType;
use crate::config::rules_config::{Rule, RuleCondition, RuleType};
use crate::pattern::{groups_view, spec_regex_captures, spec_regex_compiles, spec_regex_replace_all, Regex};
use crate::text::{
    chars_of, clone_strings, is_line_break, keep_non_blank, non_blank, placeholder,
    placeholder_chars, replace_all, replace_chars, split_by, split_chars, string_of,
    strings_view, texts_view, dollar_free, lemma_replace_other_placeholder,
    lemma_replace_own_placeholder,
};
use crate::agent::ht_process::join;
use crate::rule::capture::{lemma_replace_join, lemma_replace_without_dollar};
use vstd::prelude::*;

verus! {

/// Control sequences that select colours, move the cursor or erase.
pub const ANSI_ESCAPE_PATTERN: &'static str = "\x1b\\[[0-9;]*[mGKHF]";

/// The output with the control sequences removed, split at every `'\n'` and
/// `'\r'`, blank pieces left out.
pub open spec fn spec_normalized_lines(output: Seq<char>) -> Seq<Seq<char>> {
    non_blank(
        split_by(
            spec_regex_replace_all(ANSI_ESCAPE_PATTERN@, output, Seq::empty()),
            |c: char| is_line_break(c),
        ),
    )
}

/// Normalizes terminal output into clean lines for pattern matching; refused
/// only if the control-sequence pattern does not compile.
pub fn normalized_lines(output: &str) -> (r: Result<Vec<String>, ConfigError>)
    ensures
        r is Ok <==> spec_regex_compiles(ANSI_ESCAPE_PATTERN@),
        match r {
            Ok(ls) => strings_view(ls@) == spec_normalized_lines(output@),
            Err(e) => e == ConfigError::InvalidRegex,
        },
{
    let ansi = match Regex::new(ANSI_ESCAPE_PATTERN) {
        Ok(re) => re,
        Err(e) => {
            return Err(e);
        },
    };
    let clean = ansi.replace_all(output, "");
    proof {
        assert(""@ =~= Seq::<char>::empty()) by {
            reveal_strlit("");
        }
    }
    let cs = chars_of(clean.as_str());
    let pieces = split_chars(cs.as_slice(), true);
    let kept = keep_non_blank(pieces.as_slice());
    let mut out: Vec<String> = Vec::new();
    let mut i: usize = 0;
    while i < kept.len()
        invariant
            i <= kept@.len(),
            out@.len() == i,
            forall|j: int| 0 <= j < i ==> #[trigger] out@[j]@ == kept@[j]@,
        decreases kept@.len() - i,
    {
        out.push(string_of(kept[i].as_slice()));
        i = i + 1;
    }
    assert(strings_view(out@) =~= texts_view(kept@));
    Ok(out)
}

/// A key with `${j}` replaced by group `j`, for the groups `1..n` that took
/// part in the match, in increasing `j`.
pub open spec fn substitute_key(key: Seq<char>, groups: Seq<Option<Seq<char>>>, n: nat) -> Seq<char>
    decreases n,
{
    if n <= 1 {
        key
    } else {
        let k = substitute_key(key, groups, (n - 1) as nat);
        match groups[n - 1] {
            Some(m) => replace_all(k, placeholder((n - 1) as nat), m),
            None => k,
        }
    }
}

/// Every key with its placeholders filled from the groups of a match.
pub open spec fn substitute_keys(keys: Seq<Seq<char>>, groups: Seq<Option<Seq<char>>>) -> Seq<
    Seq<char>,
> {
    keys.map_values(|k: Seq<char>| substitute_key(k, groups, groups.len()))
}

/// The keys for a line: those of the first rule, from position `i` on, whose
/// pattern matches, filled from its groups; none if no rule matches.
pub open spec fn spec_decide_from(
    rules: Seq<(Seq<char>, Seq<Seq<char>>)>,
    capture: Seq<char>,
    i: int,
) -> Seq<Seq<char>>
    decreases rules.len() - i,
{
    if i < 0 || i >= rules.len() {
        Seq::empty()
    } else {
        match spec_regex_captures(rules[i].0, capture) {
            Some(g) => substitute_keys(rules[i].1, g),
            None => spec_decide_from(rules, capture, i + 1),
        }
    }
}

/// The pattern rules of a rule list, as (pattern, keys), in order.
pub open spec fn pattern_rules(rules: Seq<Rule>) -> Seq<(Seq<char>, Seq<Seq<char>>)>
    decreases rules.len(),
{
    if rules.len() == 0 {
        Seq::empty()
    } else {
        let p = pattern_rules(rules.drop_last());
        match rules.last().rule_type@ {
            RuleCondition::When(pat) => p.push((pat, rules.last().action@)),
            RuleCondition::DiffTimeout(_) => p,
        }
    }
}

/// The actions for a chunk of output: the decision for each normalized
/// line, those without keys left out.
pub open spec fn spec_output_actions(rules: Seq<(Seq<char>, Seq<Seq<char>>)>, output: Seq<char>) -> Seq<
    Seq<Seq<char>>,
> {
    spec_normalized_lines(output).map_values(|l: Seq<char>| spec_decide_from(rules, l, 0)).filter(
        |k: Seq<Seq<char>>| k.len() > 0,
    )
}

/// The pattern rules of an agent, in priority order (file order).
pub struct When {
    regexes: Vec<Regex>,
    actions: Vec<ActionType>,
}

impl View for When {
    type V = Seq<(Seq<char>, Seq<Seq<char>>)>;

    closed spec fn view(&self) -> Seq<(Seq<char>, Seq<Seq<char>>)> {
        Seq::new(self.regexes@.len(), |i: int| (self.regexes@[i]@, self.actions@[i]@))
    }
}

impl When {
    #[verifier::type_invariant]
    spec fn aligned(self) -> bool {
        self.regexes@.len() == self.actions@.len()
    }

    /// Keeps the pattern rules, in order.
    pub fn new(rules: Vec<Rule>) -> (w: When)
        ensures
            w@ == pattern_rules(rules@),
    {
        let mut regexes: Vec<Regex> = Vec::new();
        let mut actions: Vec<ActionType> = Vec::new();
        let mut i: usize = 0;
        while i < rules.len()
            invariant
                i <= rules@.len(),
                regexes@.len() == actions@.len(),
                Seq::new(regexes@.len(), |k: int| (regexes@[k]@, actions@[k]@)) == pattern_rules(
                    rules@.take(i as int),
                ),
            decreases rules@.len() - i,
        {
            let ghost before = Seq::new(regexes@.len(), |k: int| (regexes@[k]@, actions@[k]@));
            assert(rules@.take(i + 1).drop_last() == rules@.take(i as int));
            assert(rules@.take(i + 1).last() == rules@[i as int]);
            let rule = &rules[i];
            match &rule.rule_type {
                RuleType::When(re) => {
                    regexes.push(re.clone());
                    actions.push(rule.action.clone_keys());
                    assert(Seq::new(regexes@.len(), |k: int| (regexes@[k]@, actions@[k]@))
                        =~= before.push((re@, rule.action@)));
                },
                RuleType::DiffTimeout(_) => {
                    assert(Seq::new(regexes@.len(), |k: int| (regexes@[k]@, actions@[k]@))
                        =~= before);
                },
            }
            i = i + 1;
        }
        assert(rules@.take(rules@.len() as int) == rules@);
        When { regexes, actions }
    }

    /// The action for a line of terminal output: that of the first rule whose
    /// pattern matches, each `${j}` in its keys replaced by capture group `j`;
    /// an action with no keys when no rule matches.
    pub fn decide_action(&self, capture: &str) -> (r: ActionType)
        ensures
            r@ == spec_decide_from(self@, capture@, 0),
    {
        proof {
            use_type_invariant(self);
        }
        let ghost rules = self@;
        let mut i: usize = 0;
        while i < self.regexes.len()
            invariant
                i <= self.regexes@.len(),
                self.regexes@.len() == self.actions@.len(),
                rules == self@,
                spec_decide_from(rules, capture@, 0) == spec_decide_from(rules, capture@, i as int),
            decreases self.regexes@.len() - i,
        {
            match self.regexes[i].captures(capture) {
                Some(groups) => {
                    let ActionType::SendKeys(keys) = &self.actions[i];
                    let filled = substitute_all(keys.as_slice(), &groups);
                    return ActionType::SendKeys(filled);
                },
                None => {},
            }
            i = i + 1;
        }
        ActionType::SendKeys(Vec::new())
    }

    /// The actions for a chunk of terminal output: the action decided for
    /// each of its normalized lines, those without keys left out; refused only
    /// if the control-sequence pattern does not compile.
    pub fn actions_for_output(&self, pty_output: &str) -> (r: Result<Vec<ActionType>, ConfigError>)
        ensures
            r is Ok <==> spec_regex_compiles(ANSI_ESCAPE_PATTERN@),
            match r {
                Ok(acts) => acts@.map_values(|a: ActionType| a@) == spec_output_actions(
                    self@,
                    pty_output@,
                ),
                Err(e) => e == ConfigError::InvalidRegex,
            },
    {
        let lines = match normalized_lines(pty_output) {
            Ok(ls) => ls,
            Err(e) => {
                return Err(e);
            },
        };
        let ghost rules = self@;
        let ghost ls = strings_view(lines@);
        let ghost decided = ls.map_values(|l: Seq<char>| spec_decide_from(rules, l, 0));
        let ghost has_keys = |k: Seq<Seq<char>>| k.len() > 0;
        let mut acts: Vec<ActionType> = Vec::new();
        let mut i: usize = 0;
        proof {
            reveal(Seq::filter);
            assert(decided.take(0).filter(has_keys) =~= Seq::<Seq<Seq<char>>>::empty());
            assert(acts@.map_values(|a: ActionType| a@) =~= Seq::<Seq<Seq<char>>>::empty());
        }
        while i < lines.len()
            invariant
                i <= lines@.len(),
                rules == self@,
                ls == strings_view(lines@),
                ls == spec_normalized_lines(pty_output@),
                decided == ls.map_values(|l: Seq<char>| spec_decide_from(rules, l, 0)),
                has_keys == (|k: Seq<Seq<char>>| k.len() > 0),
                acts@.map_values(|a: ActionType| a@) == decided.take(i as int).filter(has_keys),
            decreases lines@.len() - i,
        {
            let a = self.decide_action(lines[i].as_str());
            assert(ls[i as int] == lines@[i as int]@);
            assert(decided[i as int] == a@);
            assert(decided.take(i + 1) =~= decided.take(i as int).push(a@));
            proof {
                decided.take(i as int).lemma_filter_push(a@, has_keys);
            }
            let ghost before = acts@.map_values(|a: ActionType| a@);
            let ActionType::SendKeys(keys) = &a;
            if keys.len() > 0 {
                acts.push(a);
                assert(acts@.map_values(|a: ActionType| a@) =~= before.push(decided[i as int]));
            }
            i = i + 1;
        }
        assert(decided.take(decided.len() as int) == decided);
        Ok(acts)
    }

    /// The lines of terminal output that the rules are matched against.
    pub fn get_normalized_lines(&self, pty_output: &str) -> (r: Result<Vec<String>, ConfigError>)
        ensures
            r is Ok <==> spec_regex_compiles(ANSI_ESCAPE_PATTERN@),
            match r {
                Ok(ls) => strings_view(ls@) == spec_normalized_lines(pty_output@),
                Err(e) => e == ConfigError::InvalidRegex,
            },
    {
        normalized_lines(pty_output)
    }
}

impl ActionType {
    /// A copy of the action.
    pub fn clone_keys(&self) -> (r: ActionType)
        ensures
            r@ == self@,
    {
        let ActionType::SendKeys(keys) = self;
        ActionType::SendKeys(clone_strings(keys.as_slice()))
    }
}

/// One key with its placeholders filled from the groups of a match.
pub fn substitute_one(key: &String, groups: &Vec<Option<String>>) -> (r: String)
    ensures
        r@ == substitute_key(key@, groups_view(groups@), groups@.len() as nat),
{
    let ghost g = groups_view(groups@);
    let mut k = chars_of(key.as_str());
    if groups.len() <= 1 {
        return string_of(k.as_slice());
    }
    let mut j: usize = 1;
    while j < groups.len()
        invariant
            1 <= j <= groups@.len(),
            g == groups_view(groups@),
            k@ == substitute_key(key@, g, j as nat),
        decreases groups@.len() - j,
    {
        match &groups[j] {
            Some(m) => {
                let p = placeholder_chars(j);
                let mc = chars_of(m.as_str());
                k = replace_chars(k.as_slice(), p.as_slice(), mc.as_slice());
            },
            None => {},
        }
        j = j + 1;
    }
    string_of(k.as_slice())
}

/// Every key with its placeholders filled from the groups of a match.
pub fn substitute_all(keys: &[String], groups: &Vec<Option<String>>) -> (r: Vec<String>)
    ensures
        strings_view(r@) == substitute_keys(strings_view(keys@), groups_view(groups@)),
{
    let mut out: Vec<String> = Vec::new();
    let mut i: usize = 0;
    while i < keys.len()
        invariant
            i <= keys@.len(),
            out@.len() == i,
            forall|j: int|
                0 <= j < i ==> #[trigger] out@[j]@ == substitute_key(
                    keys@[j]@,
                    groups_view(groups@),
                    groups@.len() as nat,
                ),
        decreases keys@.len() - i,
    {
        out.push(substitute_one(&keys[i], groups));
        i = i + 1;
    }
    assert(strings_view(out@) =~= substitute_keys(strings_view(keys@), groups_view(groups@)));
    out
}

proof fn lemma_decide_from_skips(
    rules: Seq<(Seq<char>, Seq<Seq<char>>)>,
    capture: Seq<char>,
    i: int,
    j: int,
)
    requires
        0 <= i <= j <= rules.len(),
        forall|k: int| i <= k < j ==> spec_regex_captures(#[trigger] rules[k].0, capture) is None,
    ensures
        spec_decide_from(rules, capture, i) == spec_decide_from(rules, capture, j),
    decreases j - i,
{
    if i < j {
        lemma_decide_from_skips(rules, capture, i + 1, j);
    }
}

/// Line order is priority: the keys for a line are those of the first rule
/// whose pattern matches it, filled from that match's groups.
pub proof fn law_first_matching_rule_wins(
    rules: Seq<(Seq<char>, Seq<Seq<char>>)>,
    capture: Seq<char>,
    j: int,
)
    requires
        0 <= j < rules.len(),
        spec_regex_captures(rules[j].0, capture) is Some,
        forall|k: int| 0 <= k < j ==> spec_regex_captures(#[trigger] rules[k].0, capture) is None,
    ensures
        spec_decide_from(rules, capture, 0) == substitute_keys(
            rules[j].1,
            spec_regex_captures(rules[j].0, capture).unwrap(),
        ),
{
    lemma_decide_from_skips(rules, capture, 0, j);
}

/// A line that no pattern matches gets an action with no keys.
pub proof fn law_no_match_no_keys(rules: Seq<(Seq<char>, Seq<Seq<char>>)>, capture: Seq<char>)
    requires
        forall|k: int| 0 <= k < rules.len() ==> spec_regex_captures(#[trigger] rules[k].0, capture) is None,
    ensures
        spec_decide_from(rules, capture, 0) == Seq::<Seq<char>>::empty(),
{
    lemma_decide_from_skips(rules, capture, 0, rules.len() as int);
}

proof fn lemma_split_pieces_have_no_separators(s: Seq<char>, seps: spec_fn(char) -> bool)
    ensures
        forall|i: int, j: int|
            0 <= i < split_by(s, seps).len() && 0 <= j < split_by(s, seps)[i].len() ==> !seps(
                #[trigger] split_by(s, seps)[i][j],
            ),
    decreases s.len(),
{
    if s.len() > 0 {
        let t = s.drop_last();
        lemma_split_pieces_have_no_separators(t, seps);
        crate::text::lemma_split_by_nonempty(t, seps);
        let p = split_by(t, seps);
        if !seps(s.last()) {
            assert forall|i: int, j: int|
                0 <= i < split_by(s, seps).len() && 0 <= j < split_by(s, seps)[i].len() implies !seps(
                #[trigger] split_by(s, seps)[i][j],
            ) by {
                if i == p.len() - 1 {
                    if j < p.last().len() {
                        assert(split_by(s, seps)[i][j] == p[i][j]);
                    }
                } else {
                    assert(split_by(s, seps)[i] == p[i]);
                }
            }
        } else {
            assert forall|i: int, j: int|
                0 <= i < split_by(s, seps).len() && 0 <= j < split_by(s, seps)[i].len() implies !seps(
                #[trigger] split_by(s, seps)[i][j],
            ) by {
                if i < p.len() {
                    assert(split_by(s, seps)[i] == p[i]);
                }
            }
        }
    }
}

proof fn lemma_non_blank_members(ls: Seq<Seq<char>>)
    ensures
        forall|i: int|
            0 <= i < non_blank(ls).len() ==> !crate::text::is_blank(#[trigger] non_blank(ls)[i])
                && ls.contains(non_blank(ls)[i]),
    decreases ls.len(),
{
    if ls.len() > 0 {
        let t = ls.drop_last();
        lemma_non_blank_members(t);
        assert forall|i: int| 0 <= i < non_blank(ls).len() implies !crate::text::is_blank(
            #[trigger] non_blank(ls)[i],
        ) && ls.contains(non_blank(ls)[i]) by {
            if i < non_blank(t).len() {
                assert(non_blank(ls)[i] == non_blank(t)[i]);
                let k = choose|k: int| 0 <= k < t.len() && t[k] == non_blank(t)[i];
                assert(ls[k] == t[k]);
            } else {
                assert(non_blank(ls)[i] == ls.last());
                assert(ls[ls.len() - 1] == ls.last());
            }
        }
    }
}

/// The lines rules are matched against are clean: none is blank and none
/// holds a line break, `'\n'` and `'\r'` alike.
pub proof fn law_normalized_lines_are_clean(output: Seq<char>)
    ensures
        forall|i: int|
            0 <= i < spec_normalized_lines(output).len() ==> !crate::text::is_blank(
                #[trigger] spec_normalized_lines(output)[i],
            ),
        forall|i: int, j: int|
            0 <= i < spec_normalized_lines(output).len() && 0 <= j < spec_normalized_lines(
                output,
            )[i].len() ==> !is_line_break(#[trigger] spec_normalized_lines(output)[i][j]),
{
    let seps = |c: char| is_line_break(c);
    let clean = spec_regex_replace_all(ANSI_ESCAPE_PATTERN@, output, Seq::empty());
    let pieces = split_by(clean, seps);
    lemma_split_pieces_have_no_separators(clean, seps);
    lemma_non_blank_members(pieces);
    assert forall|i: int, j: int|
        0 <= i < spec_normalized_lines(output).len() && 0 <= j < spec_normalized_lines(
            output,
        )[i].len() implies !is_line_break(#[trigger] spec_normalized_lines(output)[i][j]) by {
        let l = spec_normalized_lines(output)[i];
        assert(pieces.contains(l));
        let k = choose|k: int| 0 <= k < pieces.len() && pieces[k] == l;
        assert(!seps(pieces[k][j]));
    }
}


proof fn lemma_substitute_upto_one(
    a: Seq<char>,
    b: Seq<char>,
    groups: Seq<Option<Seq<char>>>,
    j: nat,
    n: nat,
)
    requires
        1 <= j < groups.len(),
        n <= groups.len(),
        dollar_free(a),
        dollar_free(b),
        groups[j as int] matches Some(m) ==> dollar_free(m),
    ensures
        substitute_key(a + placeholder(j) + b, groups, n) == if n <= j {
            a + placeholder(j) + b
        } else {
            match groups[j as int] {
                Some(m) => a + m + b,
                None => a + placeholder(j) + b,
            }
        },
    decreases n,
{
    if n > 1 {
        let i = (n - 1) as nat;
        lemma_substitute_upto_one(a, b, groups, j, i);
        match groups[i as int] {
            Some(g) => {
                if i < j {
                    lemma_replace_other_placeholder(a, j, b, i, g);
                } else if i == j {
                    lemma_replace_own_placeholder(a, j, b, g);
                } else {
                    match groups[j as int] {
                        Some(m) => {
                            let r = a + m + b;
                            assert(dollar_free(r));
                            crate::text::lemma_placeholder_tail_dollar_free(i);
                            lemma_replace_without_dollar(r, placeholder(i), g);
                        },
                        None => {
                            lemma_replace_other_placeholder(a, j, b, i, g);
                        },
                    }
                }
            },
            None => {},
        }
    }
}

/// Filling a key replaces `${j}` by group `j` of the match when that group
/// took part, and keeps it when it did not: in a key whose only `$` starts
/// `${j}`, the placeholder becomes the group's text (itself free of `$`)
/// and the rest of the key stays as it was.
pub proof fn law_each_placeholder_gets_its_group(
    a: Seq<char>,
    b: Seq<char>,
    groups: Seq<Option<Seq<char>>>,
    j: nat,
)
    requires
        1 <= j < groups.len(),
        dollar_free(a),
        dollar_free(b),
        groups[j as int] matches Some(m) ==> dollar_free(m),
    ensures
        substitute_key(a + placeholder(j) + b, groups, groups.len()) == match groups[j as int] {
            Some(m) => a + m + b,
            None => a + placeholder(j) + b,
        },
{
    lemma_substitute_upto_one(a, b, groups, j, groups.len());
}

/// With one capture group, every `${1}` of a key is filled: `$`-free pieces
/// joined by `${1}` come out as the same pieces joined by the group's text.
pub proof fn law_single_group_fills_every_occurrence(
    pieces: Seq<Seq<char>>,
    whole: Option<Seq<char>>,
    m: Seq<char>,
)
    requires
        pieces.len() > 0,
        forall|i: int| 0 <= i < pieces.len() ==> dollar_free(#[trigger] pieces[i]),
    ensures
        substitute_key(join(pieces, placeholder(1)), seq![whole, Some(m)], 2) == join(pieces, m),
{
    crate::text::lemma_placeholder_tail_dollar_free(1);
    lemma_replace_join(pieces, placeholder(1), m);
    let k = join(pieces, placeholder(1));
    let g = seq![whole, Some(m)];
    assert(g[1] == Some(m));
    assert(substitute_key(k, g, 1) == k);
}

} // verus!
