//! What an entry does with the output of its source command: which lines it
//! processes, once each when it deduplicates, and the action for each line.
use crate::config::placeholder::{resolve_source_placeholders, spec_resolve_source};
use crate::config::types::{ActionSpec, ActionType};
use crate::text::{chars_eq, chars_of, keep_non_blank, lines, lines_of, non_blank, str_eq, string_of, texts_view};
use vstd::prelude::*;

verus! {

/// The lines of a source command's output that are processed: those that
/// are not blank, in order.
pub open spec fn source_lines(stdout: Seq<char>) -> Seq<Seq<char>> {
    non_blank(lines(stdout))
}

/// Each line once, where it first occurs, in order.
pub open spec fn dedupe(ls: Seq<Seq<char>>) -> Seq<Seq<char>>
    decreases ls.len(),
{
    if ls.len() == 0 {
        Seq::empty()
    } else {
        let d = dedupe(ls.drop_last());
        if d.contains(ls.last()) {
            d
        } else {
            d.push(ls.last())
        }
    }
}

/// The lines an entry processes: the source lines, deduplicated if it asks so.
pub open spec fn spec_lines_to_process(stdout: Seq<char>, dedupe_lines: bool) -> Seq<Seq<char>> {
    if dedupe_lines {
        dedupe(source_lines(stdout))
    } else {
        source_lines(stdout)
    }
}

/// The actions an entry runs for its source's output: its action with `${1}`
/// replaced by each line it processes.
pub open spec fn spec_source_actions(action: ActionSpec, stdout: Seq<char>, dedupe_lines: bool) -> Seq<
    ActionSpec,
> {
    spec_lines_to_process(stdout, dedupe_lines).map_values(
        |l: Seq<char>| spec_resolve_source(action, l),
    )
}

fn has_line(v: &Vec<Vec<char>>, x: &Vec<char>) -> (b: bool)
    ensures
        b == texts_view(v@).contains(x@),
{
    let mut i: usize = 0;
    while i < v.len()
        invariant
            i <= v@.len(),
            forall|j: int| 0 <= j < i ==> texts_view(v@)[j] != x@,
        decreases v@.len() - i,
    {
        if chars_eq(v[i].as_slice(), x.as_slice()) {
            assert(texts_view(v@)[i as int] == x@);
            return true;
        }
        i = i + 1;
    }
    false
}

/// The lines of a source command's output that an entry processes.
pub fn lines_to_process(stdout: &str, dedupe_lines: bool) -> (out: Vec<String>)
    ensures
        out@.map_values(|s: String| s@) == spec_lines_to_process(stdout@, dedupe_lines),
{
    let cs = chars_of(stdout);
    let ls = lines_of(cs.as_slice());
    let kept = keep_non_blank(ls.as_slice());
    let ghost src = texts_view(kept@);
    let mut chosen: Vec<Vec<char>> = Vec::new();
    let mut i: usize = 0;
    proof {
        assert(src.take(0) =~= Seq::<Seq<char>>::empty());
        assert(texts_view(chosen@) =~= Seq::<Seq<char>>::empty());
    }
    while i < kept.len()
        invariant
            i <= kept@.len(),
            src == texts_view(kept@),
            texts_view(chosen@) == (if dedupe_lines {
                dedupe(src.take(i as int))
            } else {
                src.take(i as int)
            }),
        decreases kept@.len() - i,
    {
        let line = crate::text::copy_chars(kept[i].as_slice());
        assert(src.take(i + 1).drop_last() =~= src.take(i as int));
        assert(src.take(i + 1).last() == line@);
        let ghost before = texts_view(chosen@);
        if !dedupe_lines || !has_line(&chosen, &line) {
            chosen.push(line);
            assert(texts_view(chosen@) =~= before.push(line@));
        }
        i = i + 1;
    }
    assert(src.take(src.len() as int) == src);
    let mut out: Vec<String> = Vec::new();
    let mut j: usize = 0;
    while j < chosen.len()
        invariant
            j <= chosen@.len(),
            out@.map_values(|s: String| s@) == texts_view(chosen@).take(j as int),
        decreases chosen@.len() - j,
    {
        let ghost before = out@.map_values(|s: String| s@);
        let s = string_of(chosen[j].as_slice());
        assert(texts_view(chosen@)[j as int] == chosen@[j as int]@);
        out.push(s);
        assert(out@.map_values(|s: String| s@) =~= before.push(s@));
        assert(before.push(s@) =~= texts_view(chosen@).take(j + 1));
        j = j + 1;
    }
    assert(texts_view(chosen@).take(chosen@.len() as int) == texts_view(chosen@));
    out
}

/// The actions an entry runs for the output of its source command.
pub fn source_actions(action: &ActionType, stdout: &str, dedupe_lines: bool) -> (out: Vec<ActionType>)
    ensures
        out@.map_values(|a: ActionType| a@) == spec_source_actions(action@, stdout@, dedupe_lines),
{
    let ls = lines_to_process(stdout, dedupe_lines);
    let ghost want = spec_source_actions(action@, stdout@, dedupe_lines);
    let mut out: Vec<ActionType> = Vec::new();
    let mut i: usize = 0;
    while i < ls.len()
        invariant
            i <= ls@.len(),
            ls@.map_values(|s: String| s@) == spec_lines_to_process(stdout@, dedupe_lines),
            want == spec_source_actions(action@, stdout@, dedupe_lines),
            out@.map_values(|a: ActionType| a@) == want.take(i as int),
        decreases ls@.len() - i,
    {
        let ghost before = out@.map_values(|a: ActionType| a@);
        let a = resolve_source_placeholders(action, ls[i].as_str());
        assert(ls@.map_values(|s: String| s@)[i as int] == ls@[i as int]@);
        out.push(a);
        assert(out@.map_values(|a: ActionType| a@) =~= before.push(a@));
        assert(before.push(a@) =~= want.take(i + 1));
        i = i + 1;
    }
    assert(want.take(want.len() as int) == want);
    out
}

/// Whether a source command left anything to process: it succeeded and
/// printed a line that is not blank.
pub fn source_has_data(succeeded: bool, stdout: &str) -> (b: bool)
    ensures
        b == (succeeded && source_lines(stdout@).len() > 0),
{
    if !succeeded {
        return false;
    }
    let cs = chars_of(stdout);
    let ls = lines_of(cs.as_slice());
    let kept = keep_non_blank(ls.as_slice());
    kept.len() > 0
}

/// Whether an entry has data to process: always when it has no source
/// command; otherwise when the source succeeded and printed a line that is
/// not blank. `source_output` is whether the source succeeded and what it
/// printed, or `None` when the entry has no source.
pub fn has_data_to_process(source_output: Option<(bool, String)>) -> (b: bool)
    ensures
        match source_output {
            None => b,
            Some((ok, out)) => b == (ok && source_lines(out@).len() > 0),
        },
{
    match source_output {
        None => true,
        Some((ok, out)) => source_has_data(ok, out.as_str()),
    }
}

/// The text sent for a key: `\r` written out as backslash and `r`, as a
/// configuration may hold it, stands for a carriage return.
pub open spec fn spec_key_to_send(key: Seq<char>) -> Seq<char> {
    if key == "\\r"@ || key == "\r"@ {
        "\r"@
    } else {
        key
    }
}

/// The text sent to the terminal for a configured key.
pub fn key_to_send(key: &str) -> (s: String)
    ensures
        s@ == spec_key_to_send(key@),
{
    if str_eq(key, "\\r") || str_eq(key, "\r") {
        "\r".to_owned()
    } else {
        key.to_owned()
    }
}

proof fn lemma_dedupe_contains(ls: Seq<Seq<char>>)
    ensures
        forall|x: Seq<char>| #[trigger] dedupe(ls).contains(x) <==> ls.contains(x),
        forall|i: int, j: int|
            0 <= i < j < dedupe(ls).len() ==> #[trigger] dedupe(ls)[i] != #[trigger] dedupe(ls)[j],
    decreases ls.len(),
{
    if ls.len() > 0 {
        let t = ls.drop_last();
        lemma_dedupe_contains(t);
        let d = dedupe(t);
        assert forall|x: Seq<char>| #[trigger] dedupe(ls).contains(x) <==> ls.contains(x) by {
            if ls.contains(x) && x != ls.last() {
                let k = choose|k: int| 0 <= k < ls.len() && ls[k] == x;
                assert(t[k] == x);
            }
            if t.contains(x) {
                let k = choose|k: int| 0 <= k < t.len() && t[k] == x;
                assert(ls[k] == x);
            }
            if !d.contains(ls.last()) {
                assert(d.push(ls.last())[d.len() as int] == ls.last());
                if d.contains(x) {
                    let k = choose|k: int| 0 <= k < d.len() && d[k] == x;
                    assert(d.push(ls.last())[k] == x);
                }
                if d.push(ls.last()).contains(x) {
                    let k = choose|k: int| 0 <= k < d.len() + 1 && d.push(ls.last())[k] == x;
                    if k < d.len() {
                        assert(d[k] == x);
                    }
                }
            }
            assert(ls[ls.len() - 1] == ls.last());
        }
        if !d.contains(ls.last()) {
            assert forall|i: int, j: int|
                0 <= i < j < dedupe(ls).len() implies #[trigger] dedupe(ls)[i]
                != #[trigger] dedupe(ls)[j] by {
                if j == d.len() {
                    assert(dedupe(ls)[i] == d[i]);
                } else {
                    assert(dedupe(ls)[i] == d[i]);
                    assert(dedupe(ls)[j] == d[j]);
                }
            }
        }
    }
}

/// Deduplicated lines hold every line of the output and none twice.
pub proof fn law_dedupe_keeps_each_line_once(ls: Seq<Seq<char>>)
    ensures
        forall|x: Seq<char>| #[trigger] dedupe(ls).contains(x) <==> ls.contains(x),
        forall|i: int, j: int|
            0 <= i < j < dedupe(ls).len() ==> #[trigger] dedupe(ls)[i] != #[trigger] dedupe(ls)[j],
{
    lemma_dedupe_contains(ls);
}

/// Lines without repetition are processed as they are.
pub proof fn law_dedupe_of_distinct_lines_is_identity(ls: Seq<Seq<char>>)
    requires
        forall|i: int, j: int| 0 <= i < j < ls.len() ==> #[trigger] ls[i] != #[trigger] ls[j],
    ensures
        dedupe(ls) == ls,
    decreases ls.len(),
{
    if ls.len() > 0 {
        let t = ls.drop_last();
        assert forall|i: int, j: int| 0 <= i < j < t.len() implies #[trigger] t[i] != #[trigger] t[j] by {
            assert(t[i] == ls[i] && t[j] == ls[j]);
        }
        law_dedupe_of_distinct_lines_is_identity(t);
        if dedupe(t).contains(ls.last()) {
            let k = choose|k: int| 0 <= k < t.len() && t[k] == ls.last();
            assert(ls[k] == ls[ls.len() - 1]);
        }
        assert(t.push(ls.last()) =~= ls);
    }
}

/// The texts sent for an action that a rule decided: each key as sent, for
/// keys; nothing for a workflow.
pub open spec fn spec_keys_to_send(action: ActionSpec) -> Seq<Seq<char>> {
    match action {
        ActionSpec::SendKeys(keys) => keys.map_values(|k: Seq<char>| spec_key_to_send(k)),
        ActionSpec::Workflow(_, _) => Seq::empty(),
    }
}

/// The texts sent, in order, for an action a rule decided.
pub fn keys_to_send(action: &ActionType) -> (out: Vec<String>)
    ensures
        out@.map_values(|s: String| s@) == spec_keys_to_send(action@),
{
    let mut out: Vec<String> = Vec::new();
    match action {
        ActionType::SendKeys(keys) => {
            let ghost want = spec_keys_to_send(action@);
            let mut i: usize = 0;
            while i < keys.len()
                invariant
                    i <= keys@.len(),
                    action@ == ActionSpec::SendKeys(crate::text::strings_view(keys@)),
                    want == spec_keys_to_send(action@),
                    out@.map_values(|s: String| s@) == want.take(i as int),
                decreases keys@.len() - i,
            {
                let ghost before = out@.map_values(|s: String| s@);
                let k = key_to_send(keys[i].as_str());
                assert(crate::text::strings_view(keys@)[i as int] == keys@[i as int]@);
                out.push(k);
                assert(out@.map_values(|s: String| s@) =~= before.push(k@));
                assert(before.push(k@) =~= want.take(i + 1));
                i = i + 1;
            }
            assert(want.take(want.len() as int) == want);
        },
        ActionType::Workflow(_, _) => {
            assert(out@.map_values(|s: String| s@) =~= spec_keys_to_send(action@));
        },
    }
    out
}

} // verus!
