//! Filling `${1}`, `${2}`, ... in action templates with captured text.
use crate::agent::ht_process::join;
use crate::text::{
    chars_of, dollar_free, lemma_replace_at_start, lemma_replace_free_prefix,
    lemma_replace_other_placeholder, lemma_replace_own_placeholder, placeholder, placeholder_chars,
    replace_all, replace_chars, string_of, strings_view,
};
use vstd::prelude::*;

verus! {

/// The template after `${1}` … `${n}` have been replaced, in that order, by
/// the first `n` groups.
pub open spec fn resolve_groups_upto(t: Seq<char>, groups: Seq<Seq<char>>, n: nat) -> Seq<char>
    decreases n,
{
    if n == 0 {
        t
    } else {
        replace_all(
            resolve_groups_upto(t, groups, (n - 1) as nat),
            placeholder(n),
            groups[n - 1],
        )
    }
}

/// The template with `${i}` replaced by the `i`-th group, for every group.
pub open spec fn spec_resolve_capture_groups(t: Seq<char>, groups: Seq<Seq<char>>) -> Seq<char> {
    resolve_groups_upto(t, groups, groups.len())
}

/// Resolves capture group references in a template string.
pub fn resolve_capture_groups(template: &str, captured_groups: &[String]) -> (r: String)
    ensures
        r@ == spec_resolve_capture_groups(template@, strings_view(captured_groups@)),
{
    let ghost gs = strings_view(captured_groups@);
    let mut result = chars_of(template);
    let mut i: usize = 0;
    while i < captured_groups.len()
        invariant
            i <= captured_groups@.len(),
            gs == strings_view(captured_groups@),
            result@ == resolve_groups_upto(template@, gs, i as nat),
        decreases captured_groups@.len() - i,
    {
        let p = placeholder_chars(i + 1);
        let g = chars_of(captured_groups[i].as_str());
        result = replace_chars(result.as_slice(), p.as_slice(), g.as_slice());
        i = i + 1;
    }
    string_of(result.as_slice())
}

/// Each template resolved against the groups.
pub open spec fn spec_resolve_in_vec(ts: Seq<Seq<char>>, groups: Seq<Seq<char>>) -> Seq<Seq<char>> {
    ts.map_values(|t: Seq<char>| spec_resolve_capture_groups(t, groups))
}

/// Resolves capture groups in a vector of strings.
pub fn resolve_capture_groups_in_vec(templates: &[String], captured_groups: &[String]) -> (r: Vec<
    String,
>)
    ensures
        strings_view(r@) == spec_resolve_in_vec(
            strings_view(templates@),
            strings_view(captured_groups@),
        ),
{
    let mut out: Vec<String> = Vec::new();
    let mut i: usize = 0;
    while i < templates.len()
        invariant
            i <= templates@.len(),
            out@.len() == i,
            forall|j: int|
                0 <= j < i ==> #[trigger] out@[j]@ == spec_resolve_capture_groups(
                    templates@[j]@,
                    strings_view(captured_groups@),
                ),
        decreases templates@.len() - i,
    {
        out.push(resolve_capture_groups(templates[i].as_str(), captured_groups));
        i = i + 1;
    }
    assert(strings_view(out@) =~= spec_resolve_in_vec(
        strings_view(templates@),
        strings_view(captured_groups@),
    ));
    out
}

/// Replacing a pattern that begins with `$` leaves a text without `$` as it is.
pub proof fn lemma_replace_without_dollar(s: Seq<char>, pat: Seq<char>, rep: Seq<char>)
    requires
        pat.len() > 0,
        pat[0] == '$',
        forall|i: int| 0 <= i < s.len() ==> s[i] != '$',
    ensures
        replace_all(s, pat, rep) == s,
    decreases s.len(),
{
    if s.len() > 0 {
        if pat.len() <= s.len() && s.take(pat.len() as int) == pat {
            assert(s.take(pat.len() as int)[0] == s[0]);
        }
        assert forall|i: int| 0 <= i < s.drop_first().len() implies s.drop_first()[i] != '$' by {
            assert(s.drop_first()[i] == s[i + 1]);
        }
        lemma_replace_without_dollar(s.drop_first(), pat, rep);
        assert(seq![s[0]] + s.drop_first() == s);
    }
}

/// A template without `$` holds no placeholder: resolving it against any
/// groups gives it back unchanged.
pub proof fn law_template_without_placeholder_unchanged(t: Seq<char>, groups: Seq<Seq<char>>)
    requires
        forall|i: int| 0 <= i < t.len() ==> t[i] != '$',
    ensures
        spec_resolve_capture_groups(t, groups) == t,
{
    lemma_resolve_upto_unchanged(t, groups, groups.len());
}

proof fn lemma_resolve_upto_unchanged(t: Seq<char>, groups: Seq<Seq<char>>, n: nat)
    requires
        forall|i: int| 0 <= i < t.len() ==> t[i] != '$',
    ensures
        resolve_groups_upto(t, groups, n) == t,
    decreases n,
{
    if n > 0 {
        lemma_resolve_upto_unchanged(t, groups, (n - 1) as nat);
        lemma_replace_without_dollar(t, placeholder(n), groups[n - 1]);
    }
}

/// Without groups, a template is left as it is.
pub proof fn law_no_groups_unchanged(t: Seq<char>)
    ensures
        spec_resolve_capture_groups(t, Seq::empty()) == t,
{
}


proof fn lemma_join_first(ps: Seq<Seq<char>>, sep: Seq<char>)
    requires
        ps.len() >= 2,
    ensures
        join(ps, sep) == ps[0] + sep + join(ps.drop_first(), sep),
    decreases ps.len(),
{
    if ps.len() == 2 {
        assert(ps.drop_last().len() == 1);
        assert(ps.drop_first().len() == 1);
        assert(join(ps.drop_last(), sep) == ps[0]);
        assert(join(ps.drop_first(), sep) == ps[1]);
    } else {
        let init = ps.drop_last();
        lemma_join_first(init, sep);
        assert(init.drop_first() == ps.drop_first().drop_last());
        assert(ps.drop_first().last() == ps.last());
        assert(join(ps.drop_first(), sep) == join(init.drop_first(), sep) + sep + ps.last());
    }
}

/// Replacing `pat`, which begins with `$`, in `$`-free pieces joined by `pat`
/// gives the same pieces joined by `rep`: every occurrence is replaced.
pub proof fn lemma_replace_join(pieces: Seq<Seq<char>>, pat: Seq<char>, rep: Seq<char>)
    requires
        pieces.len() > 0,
        pat.len() > 0,
        pat[0] == '$',
        forall|i: int| 0 <= i < pieces.len() ==> dollar_free(#[trigger] pieces[i]),
    ensures
        replace_all(join(pieces, pat), pat, rep) == join(pieces, rep),
    decreases pieces.len(),
{
    if pieces.len() == 1 {
        lemma_replace_without_dollar(pieces[0], pat, rep);
    } else {
        let rest = pieces.drop_first();
        assert forall|i: int| 0 <= i < rest.len() implies dollar_free(#[trigger] rest[i]) by {
            assert(rest[i] == pieces[i + 1]);
        }
        lemma_replace_join(rest, pat, rep);
        lemma_join_first(pieces, pat);
        lemma_join_first(pieces, rep);
        let jr = join(rest, pat);
        assert(pieces[0] + pat + jr == pieces[0] + (pat + jr));
        lemma_replace_free_prefix(pieces[0], pat + jr, pat, rep);
        lemma_replace_at_start(jr, pat, rep);
        assert(pieces[0] + (rep + join(rest, rep)) == pieces[0] + rep + join(rest, rep));
    }
}

proof fn lemma_resolve_upto_one(a: Seq<char>, b: Seq<char>, groups: Seq<Seq<char>>, n: nat, k: nat)
    requires
        1 <= n <= groups.len(),
        k <= groups.len(),
        dollar_free(a),
        dollar_free(b),
        dollar_free(groups[n - 1]),
    ensures
        resolve_groups_upto(a + placeholder(n) + b, groups, k) == if k < n {
            a + placeholder(n) + b
        } else {
            a + groups[n - 1] + b
        },
    decreases k,
{
    if k > 0 {
        lemma_resolve_upto_one(a, b, groups, n, (k - 1) as nat);
        if k < n {
            lemma_replace_other_placeholder(a, n, b, k, groups[k - 1]);
        } else if k == n {
            lemma_replace_own_placeholder(a, n, b, groups[n - 1]);
        } else {
            let r = a + groups[n - 1] + b;
            assert(dollar_free(r));
            lemma_replace_without_dollar(r, placeholder(k), groups[k - 1]);
        }
    }
}

/// Resolving fills `${n}` with the `n`-th group: in a template whose only
/// `$` starts `${n}`, that placeholder becomes the group's text (itself
/// free of `$`) and the rest of the template stays as it was.
pub proof fn law_resolve_fills_its_group(a: Seq<char>, b: Seq<char>, groups: Seq<Seq<char>>, n: nat)
    requires
        1 <= n <= groups.len(),
        dollar_free(a),
        dollar_free(b),
        dollar_free(groups[n - 1]),
    ensures
        spec_resolve_capture_groups(a + placeholder(n) + b, groups) == a + groups[n - 1] + b,
{
    lemma_resolve_upto_one(a, b, groups, n, groups.len());
}

/// With one group, every `${1}` of a template is filled: `$`-free pieces
/// joined by `${1}` come out as the same pieces joined by the group's text.
pub proof fn law_resolve_fills_every_occurrence(pieces: Seq<Seq<char>>, m: Seq<char>)
    requires
        pieces.len() > 0,
        forall|i: int| 0 <= i < pieces.len() ==> dollar_free(#[trigger] pieces[i]),
    ensures
        spec_resolve_capture_groups(join(pieces, placeholder(1)), seq![m]) == join(pieces, m),
{
    crate::text::lemma_placeholder_tail_dollar_free(1);
    lemma_replace_join(pieces, placeholder(1), m);
    let t = join(pieces, placeholder(1));
    let g = seq![m];
    assert(g.len() == 1 && g[0] == m);
    assert(resolve_groups_upto(t, g, 0) == t);
    assert(resolve_groups_upto(t, g, 1) == replace_all(t, placeholder(1), m));
}

} // verus!
