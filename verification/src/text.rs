//! Character-level text handling shared by the configuration parsers and the
//! terminal-output processing: whitespace, trimming, line splitting, literal
//! substring replacement and decimal rendering, each with a spec model.
use vstd::prelude::*;

verus! {

/// Appends one character to a string.
#[verifier::external_body]
pub(crate) fn push_char(s: &mut String, c: char)
    ensures
        final(s)@ == old(s)@.push(c),
{
    s.push(c);
}

/// The characters of a string slice, in order.
pub fn chars_of(s: &str) -> (v: Vec<char>)
    ensures
        v@ == s@,
{
    broadcast use vstd::string::group_string_axioms;

    let mut v: Vec<char> = Vec::new();
    for c in it: s.chars()
        invariant
            v@ == it.seq().take(it.index()),
    {
        v.push(c);
    }
    assert(v@ == s@);
    v
}

/// Builds a string from a sequence of characters.
pub fn string_of(v: &[char]) -> (s: String)
    ensures
        s@ == v@,
{
    let mut s = String::new();
    let mut i: usize = 0;
    while i < v.len()
        invariant
            i <= v@.len(),
            s@ == v@.take(i as int),
        decreases v@.len() - i,
    {
        push_char(&mut s, v[i]);
        assert(v@.take(i as int).push(v@[i as int]) == v@.take(i + 1));
        i = i + 1;
    }
    assert(v@.take(v@.len() as int) == v@);
    s
}

/// Appends a text to a string.
pub fn append_str(s: &mut String, t: &str)
    ensures
        final(s)@ == old(s)@ + t@,
{
    let cs = chars_of(t);
    let mut i: usize = 0;
    while i < cs.len()
        invariant
            i <= cs@.len(),
            cs@ == t@,
            s@ == old(s)@ + cs@.take(i as int),
        decreases cs@.len() - i,
    {
        push_char(s, cs[i]);
        assert(old(s)@ + cs@.take(i + 1) == old(s)@ + cs@.take(i as int) + seq![cs@[i as int]]);
        i = i + 1;
    }
    assert(cs@.take(cs@.len() as int) == cs@);
}

/// Two texts one after the other.
pub fn concat(a: &str, b: &str) -> (r: String)
    ensures
        r@ == a@ + b@,
{
    let mut r = a.to_owned();
    append_str(&mut r, b);
    r
}

/// Whether `s` holds `pat` somewhere.
pub open spec fn holds(s: Seq<char>, pat: Seq<char>) -> bool {
    exists|i: int| 0 <= i <= s.len() - pat.len() && #[trigger] s.subrange(i, i + pat.len()) == pat
}

pub fn contains_chars(s: &[char], pat: &[char]) -> (b: bool)
    ensures
        b == holds(s@, pat@),
{
    if pat.len() > s.len() {
        return false;
    }
    let m = s.len() - pat.len();
    let mut i: usize = 0;
    loop
        invariant
            pat@.len() <= s@.len(),
            m == s@.len() - pat@.len(),
            i <= m,
            forall|k: int| 0 <= k < i ==> #[trigger] s@.subrange(k, k + pat@.len()) != pat@,
        decreases m - i,
    {
        if matches_at(s, pat, i) {
            assert(s@.subrange(i as int, i + pat@.len()) =~= pat@);
            return true;
        }
        if i == m {
            return false;
        }
        i = i + 1;
    }
}

/// Whether `s` holds `pat`.
pub fn contains_text(s: &str, pat: &str) -> (b: bool)
    ensures
        b == holds(s@, pat@),
{
    let a = chars_of(s);
    let p = chars_of(pat);
    contains_chars(a.as_slice(), p.as_slice())
}

/// Copies a list of strings.
pub fn clone_strings(v: &[String]) -> (out: Vec<String>)
    ensures
        out@ == v@,
{
    let mut out: Vec<String> = Vec::new();
    let mut i: usize = 0;
    while i < v.len()
        invariant
            i <= v@.len(),
            out@ == v@.take(i as int),
        decreases v@.len() - i,
    {
        out.push(v[i].clone());
        assert(v@.take(i as int).push(v@[i as int]) == v@.take(i + 1));
        i = i + 1;
    }
    assert(v@.take(v@.len() as int) == v@);
    out
}

/// The views of a list of strings.
pub open spec fn strings_view(v: Seq<String>) -> Seq<Seq<char>> {
    v.map_values(|s: String| s@)
}

// ---------------------------------------------------------------------------
// Whitespace
// ---------------------------------------------------------------------------

/// Unicode `White_Space`, the property that `char::is_whitespace` tests.
pub open spec fn is_ws(c: char) -> bool {
    let u = c as u32;
    ||| 0x09 <= u <= 0x0d
    ||| u == 0x20
    ||| u == 0x85
    ||| u == 0xa0
    ||| u == 0x1680
    ||| 0x2000 <= u <= 0x200a
    ||| u == 0x2028
    ||| u == 0x2029
    ||| u == 0x202f
    ||| u == 0x205f
    ||| u == 0x3000
}

pub fn is_whitespace(c: char) -> (b: bool)
    ensures
        b == is_ws(c),
{
    let u = c as u32;
    (0x09 <= u && u <= 0x0d) || u == 0x20 || u == 0x85 || u == 0xa0 || u == 0x1680 || (0x2000
        <= u && u <= 0x200a) || u == 0x2028 || u == 0x2029 || u == 0x202f || u == 0x205f || u
        == 0x3000
}

/// A text that is empty once trimmed: it holds whitespace only.
pub open spec fn is_blank(s: Seq<char>) -> bool {
    forall|i: int| 0 <= i < s.len() ==> is_ws(#[trigger] s[i])
}

pub fn blank(s: &[char]) -> (b: bool)
    ensures
        b == is_blank(s@),
{
    let mut i: usize = 0;
    while i < s.len()
        invariant
            i <= s@.len(),
            forall|j: int| 0 <= j < i ==> is_ws(#[trigger] s@[j]),
        decreases s@.len() - i,
    {
        if !is_whitespace(s[i]) {
            return false;
        }
        i = i + 1;
    }
    true
}

/// Leading whitespace removed.
pub open spec fn trim_start(s: Seq<char>) -> Seq<char>
    decreases s.len(),
{
    if s.len() > 0 && is_ws(s[0]) {
        trim_start(s.drop_first())
    } else {
        s
    }
}

/// Trailing whitespace removed.
pub open spec fn trim_end(s: Seq<char>) -> Seq<char>
    decreases s.len(),
{
    if s.len() > 0 && is_ws(s.last()) {
        trim_end(s.drop_last())
    } else {
        s
    }
}

/// What `str::trim` returns.
pub open spec fn trim(s: Seq<char>) -> Seq<char> {
    trim_end(trim_start(s))
}

proof fn lemma_trim_start_skip(s: Seq<char>, i: int)
    requires
        0 <= i <= s.len(),
        forall|j: int| 0 <= j < i ==> is_ws(#[trigger] s[j]),
    ensures
        trim_start(s) == trim_start(s.skip(i)),
    decreases i,
{
    if i > 0 {
        assert(s.drop_first().skip(i - 1) == s.skip(i));
        lemma_trim_start_skip(s.drop_first(), i - 1);
    } else {
        assert(s.skip(0) == s);
    }
}

proof fn lemma_trim_end_take(s: Seq<char>, k: int)
    requires
        0 <= k <= s.len(),
        forall|j: int| k <= j < s.len() ==> is_ws(#[trigger] s[j]),
    ensures
        trim_end(s) == trim_end(s.take(k)),
    decreases s.len() - k,
{
    if k < s.len() {
        assert(s.drop_last().take(k) == s.take(k));
        lemma_trim_end_take(s.drop_last(), k);
    } else {
        assert(s.take(k) == s);
    }
}

proof fn lemma_trim_blank(s: Seq<char>)
    ensures
        trim(s).len() == 0 <==> is_blank(s),
    decreases s.len(),
{
    if is_blank(s) {
        lemma_trim_start_skip(s, s.len() as int);
        assert(s.skip(s.len() as int).len() == 0);
    } else {
        let i = choose|i: int| 0 <= i < s.len() && !is_ws(#[trigger] s[i]);
        lemma_first_non_ws_exists(s);
    }
}

proof fn lemma_first_non_ws_exists(s: Seq<char>)
    requires
        !is_blank(s),
    ensures
        trim(s).len() > 0,
    decreases s.len(),
{
    if s.len() > 0 && is_ws(s[0]) {
        assert(!is_blank(s.drop_first())) by {
            let i = choose|i: int| 0 <= i < s.len() && !is_ws(#[trigger] s[i]);
            assert(s.drop_first()[i - 1] == s[i]);
        }
        lemma_first_non_ws_exists(s.drop_first());
    } else {
        assert(trim_start(s) == s);
        assert(s.len() > 0);
        assert(!is_ws(s[0]));
        lemma_trim_end_keeps_first(s);
    }
}

proof fn lemma_trim_start_first(s: Seq<char>)
    ensures
        trim_start(s).len() > 0 ==> !is_ws(trim_start(s)[0]),
    decreases s.len(),
{
    if s.len() > 0 && is_ws(s[0]) {
        lemma_trim_start_first(s.drop_first());
    }
}

proof fn lemma_trim_end_prefix(t: Seq<char>)
    ensures
        trim_end(t).len() <= t.len(),
        trim_end(t) == t.take(trim_end(t).len() as int),
        trim_end(t).len() > 0 ==> !is_ws(trim_end(t).last()),
    decreases t.len(),
{
    if t.len() > 0 && is_ws(t.last()) {
        lemma_trim_end_prefix(t.drop_last());
        let k = trim_end(t.drop_last()).len() as int;
        assert(t.drop_last().take(k) == t.take(k));
    } else {
        assert(t.take(t.len() as int) == t);
    }
}

/// A trimmed text that is not empty starts and ends with a character that
/// is not whitespace.
pub proof fn lemma_trim_ends(s: Seq<char>)
    ensures
        trim(s).len() > 0 ==> !is_ws(trim(s)[0]) && !is_ws(trim(s).last()),
{
    lemma_trim_start_first(s);
    lemma_trim_end_prefix(trim_start(s));
    if trim(s).len() > 0 {
        assert(trim(s)[0] == trim_start(s)[0]);
    }
}

proof fn lemma_trim_end_keeps_first(s: Seq<char>)
    requires
        s.len() > 0,
        !is_ws(s[0]),
    ensures
        trim_end(s).len() > 0,
    decreases s.len(),
{
    if is_ws(s.last()) {
        lemma_trim_end_keeps_first(s.drop_last());
    }
}

/// `str::trim`.
pub fn trim_chars(s: &[char]) -> (t: Vec<char>)
    ensures
        t@ == trim(s@),
        t@.len() == 0 <==> is_blank(s@),
{
    let mut i: usize = 0;
    while i < s.len() && is_whitespace(s[i])
        invariant
            i <= s@.len(),
            forall|j: int| 0 <= j < i ==> is_ws(#[trigger] s@[j]),
        decreases s@.len() - i,
    {
        i = i + 1;
    }
    let mut k: usize = s.len();
    while k > i && is_whitespace(s[k - 1])
        invariant
            i <= k <= s@.len(),
            forall|j: int| k <= j < s@.len() ==> is_ws(#[trigger] s@[j]),
        decreases k,
    {
        k = k - 1;
    }
    let mut t: Vec<char> = Vec::new();
    let mut p: usize = i;
    while p < k
        invariant
            i <= p <= k,
            k <= s@.len(),
            t@ == s@.subrange(i as int, p as int),
        decreases k - p,
    {
        t.push(s[p]);
        assert(s@.subrange(i as int, p as int).push(s@[p as int]) == s@.subrange(
            i as int,
            p + 1,
        ));
        p = p + 1;
    }
    proof {
        lemma_trim_start_skip(s@, i as int);
        let rest = s@.skip(i as int);
        if i < s@.len() {
            assert(rest[0] == s@[i as int]);
            assert(!is_ws(rest[0]));
            assert(trim_start(rest) == rest);
        } else {
            assert(rest.len() == 0);
        }
        assert forall|j: int| k - i <= j < rest.len() implies is_ws(#[trigger] rest[j]) by {
            assert(rest[j] == s@[i + j]);
        }
        lemma_trim_end_take(rest, k - i);
        assert(rest.take(k - i) == s@.subrange(i as int, k as int));
        if k > i {
            let r = rest.take(k - i);
            assert(r.last() == s@[k - 1]);
            assert(trim_end(r) == r);
        }
        lemma_trim_blank(s@);
    }
    t
}

// ---------------------------------------------------------------------------
// Splitting
// ---------------------------------------------------------------------------

/// `'\n'` or `'\r'`.
pub open spec fn is_line_break(c: char) -> bool {
    c == '\n' || c == '\r'
}

/// The pieces that `str::split` gives for the separator set `seps`: the texts
/// between separators, empty ones included; an empty text gives one empty piece.
pub open spec fn split_by(s: Seq<char>, seps: spec_fn(char) -> bool) -> Seq<Seq<char>>
    decreases s.len(),
{
    if s.len() == 0 {
        seq![Seq::empty()]
    } else {
        let p = split_by(s.drop_last(), seps);
        if seps(s.last()) {
            p.push(Seq::empty())
        } else {
            p.update(p.len() - 1, p.last().push(s.last()))
        }
    }
}

pub proof fn lemma_split_by_nonempty(s: Seq<char>, seps: spec_fn(char) -> bool)
    ensures
        split_by(s, seps).len() >= 1,
    decreases s.len(),
{
    if s.len() > 0 {
        lemma_split_by_nonempty(s.drop_last(), seps);
    }
}

/// The non-blank elements of a list of texts, in order.
pub open spec fn non_blank(ls: Seq<Seq<char>>) -> Seq<Seq<char>>
    decreases ls.len(),
{
    if ls.len() == 0 {
        Seq::empty()
    } else if is_blank(ls.last()) {
        non_blank(ls.drop_last())
    } else {
        non_blank(ls.drop_last()).push(ls.last())
    }
}

/// Splits at every separator character (`str::split` with a character set).
pub fn split_chars(s: &[char], line_breaks_only: bool) -> (pieces: Vec<Vec<char>>)
    ensures
        line_breaks_only ==> texts_view(pieces@) == split_by(
            s@,
            |c: char| is_line_break(c),
        ),
        !line_breaks_only ==> texts_view(pieces@) == split_by(
            s@,
            |c: char| c == '\n',
        ),
{
    let ghost seps: spec_fn(char) -> bool = if line_breaks_only {
        |c: char| is_line_break(c)
    } else {
        |c: char| c == '\n'
    };
    let mut pieces: Vec<Vec<char>> = Vec::new();
    let mut cur: Vec<char> = Vec::new();
    let mut i: usize = 0;
    proof {
        assert(s@.take(0) == Seq::<char>::empty());
        assert(texts_view(pieces@).push(cur@) == split_by(s@.take(0), seps));
    }
    while i < s.len()
        invariant
            i <= s@.len(),
            seps == (if line_breaks_only {
                |c: char| is_line_break(c)
            } else {
                |c: char| c == '\n'
            }),
            texts_view(pieces@).push(cur@) == split_by(s@.take(i as int), seps),
        decreases s@.len() - i,
    {
        let c = s[i];
        let sep = if line_breaks_only {
            c == '\n' || c == '\r'
        } else {
            c == '\n'
        };
        let ghost old_pieces = texts_view(pieces@);
        let ghost old_cur = cur@;
        assert(s@.take(i + 1).drop_last() == s@.take(i as int));
        assert(s@.take(i + 1).last() == c);
        if sep {
            let done = cur;
            pieces.push(done);
            cur = Vec::new();
            assert(texts_view(pieces@) == old_pieces.push(old_cur));
        } else {
            cur.push(c);
            assert(texts_view(pieces@) == old_pieces);
        }
        i = i + 1;
    }
    assert(s@.take(s@.len() as int) == s@);
    let ghost before = texts_view(pieces@);
    pieces.push(cur);
    assert(texts_view(pieces@) == before.push(cur@));
    pieces
}

/// A copy of a character sequence.
pub fn copy_chars(v: &[char]) -> (out: Vec<char>)
    ensures
        out@ == v@,
{
    let mut out: Vec<char> = Vec::new();
    let mut i: usize = 0;
    while i < v.len()
        invariant
            i <= v@.len(),
            out@ == v@.take(i as int),
        decreases v@.len() - i,
    {
        out.push(v[i]);
        assert(v@.take(i as int).push(v@[i as int]) == v@.take(i + 1));
        i = i + 1;
    }
    assert(v@.take(v@.len() as int) == v@);
    out
}

/// The views of a list of character vectors.
pub open spec fn texts_view(v: Seq<Vec<char>>) -> Seq<Seq<char>> {
    v.map_values(|p: Vec<char>| p@)
}

/// Keeps the non-blank texts, in order.
pub fn keep_non_blank(ls: &[Vec<char>]) -> (out: Vec<Vec<char>>)
    ensures
        texts_view(out@) == non_blank(texts_view(ls@)),
{
    let ghost lv = texts_view(ls@);
    let mut out: Vec<Vec<char>> = Vec::new();
    let mut i: usize = 0;
    while i < ls.len()
        invariant
            i <= ls@.len(),
            lv == texts_view(ls@),
            texts_view(out@) == non_blank(lv.take(i as int)),
        decreases ls@.len() - i,
    {
        let ghost pre = lv.take(i as int);
        assert(lv.take(i + 1).drop_last() == pre);
        assert(lv.take(i + 1).last() == lv[i as int]);
        let x = &ls[i];
        if !blank(x.as_slice()) {
            let ghost before = texts_view(out@);
            out.push(copy_chars(x.as_slice()));
            assert(texts_view(out@) == before.push(lv[i as int]));
        }
        i = i + 1;
    }
    assert(lv.take(lv.len() as int) == lv);
    out
}

/// Drops one trailing `'\r'`.
pub open spec fn strip_cr(l: Seq<char>) -> Seq<char> {
    if l.len() > 0 && l.last() == '\r' {
        l.drop_last()
    } else {
        l
    }
}

/// What `str::lines` gives: the texts ended by `'\n'` (less a `'\r'` before
/// it), then the rest if it is not empty.
pub open spec fn lines(s: Seq<char>) -> Seq<Seq<char>> {
    if s.len() == 0 {
        Seq::empty()
    } else {
        let p = split_by(s, |c: char| c == '\n');
        let n = if s.last() == '\n' {
            p.len() - 1
        } else {
            p.len() as int
        };
        Seq::new(
            n as nat,
            |i: int|
                if i < p.len() - 1 {
                    strip_cr(p[i])
                } else {
                    p[i]
                },
        )
    }
}

/// `str::lines`.
pub fn lines_of(s: &[char]) -> (out: Vec<Vec<char>>)
    ensures
        texts_view(out@) == lines(s@),
{
    if s.len() == 0 {
        let out: Vec<Vec<char>> = Vec::new();
        assert(texts_view(out@) =~= lines(s@));
        return out;
    }
    let pieces = split_chars(s, false);
    let ghost p = split_by(s@, |c: char| c == '\n');
    proof {
        lemma_split_by_nonempty(s@, |c: char| c == '\n');
        assert(texts_view(pieces@) == p);
        assert(pieces@.len() == p.len());
    }
    let n = if s[s.len() - 1] == '\n' {
        pieces.len() - 1
    } else {
        pieces.len()
    };
    let mut out: Vec<Vec<char>> = Vec::new();
    let mut i: usize = 0;
    while i < n
        invariant
            n <= pieces@.len(),
            pieces@.len() == p.len(),
            texts_view(pieces@) == p,
            i <= n,
            out@.len() == i,
            forall|j: int|
                0 <= j < i ==> #[trigger] out@[j]@ == (if j < p.len() - 1 {
                    strip_cr(p[j])
                } else {
                    p[j]
                }),
        decreases n - i,
    {
        let piece = &pieces[i];
        assert(piece@ == p[i as int]);
        let len = piece.len();
        let line = if i + 1 < pieces.len() && len > 0 && piece[len - 1] == '\r' {
            let mut t = copy_chars(piece.as_slice());
            t.pop();
            t
        } else {
            copy_chars(piece.as_slice())
        };
        out.push(line);
        i = i + 1;
    }
    assert(texts_view(out@) =~= lines(s@));
    out
}

/// `str::replace` with a non-empty pattern: each leftmost, non-overlapping
/// occurrence of `pat` becomes `rep`.
pub open spec fn replace_all(s: Seq<char>, pat: Seq<char>, rep: Seq<char>) -> Seq<char>
    decreases s.len(),
{
    if s.len() == 0 {
        Seq::empty()
    } else if 0 < pat.len() <= s.len() && s.take(pat.len() as int) == pat {
        rep + replace_all(s.skip(pat.len() as int), pat, rep)
    } else {
        seq![s[0]] + replace_all(s.drop_first(), pat, rep)
    }
}

/// `pat` occurs in `s` at position `i`.
pub open spec fn occurs_at(s: Seq<char>, pat: Seq<char>, i: int) -> bool {
    0 <= i && i + pat.len() <= s.len() && s.subrange(i, i + pat.len()) == pat
}

/// Whether `s` has `pat` at position `i`.
pub fn matches_at(s: &[char], pat: &[char], i: usize) -> (b: bool)
    requires
        i <= s@.len(),
    ensures
        b == occurs_at(s@, pat@, i as int),
{
    if pat.len() > s.len() - i {
        return false;
    }
    let mut j: usize = 0;
    while j < pat.len()
        invariant
            j <= pat@.len(),
            i + pat@.len() <= s@.len(),
            s@.len() <= usize::MAX,
            forall|k: int| 0 <= k < j ==> s@[i + k] == pat@[k],
        decreases pat@.len() - j,
    {
        if s[i + j] != pat[j] {
            assert(s@.subrange(i as int, i + pat@.len())[j as int] != pat@[j as int]);
            return false;
        }
        j = j + 1;
    }
    assert(s@.subrange(i as int, i + pat@.len()) =~= pat@);
    true
}

/// `str::replace`.
pub fn replace_chars(s: &[char], pat: &[char], rep: &[char]) -> (out: Vec<char>)
    requires
        pat@.len() > 0,
    ensures
        out@ == replace_all(s@, pat@, rep@),
{
    let mut out: Vec<char> = Vec::new();
    let mut i: usize = 0;
    assert(s@.skip(0) == s@);
    while i < s.len()
        invariant
            i <= s@.len(),
            pat@.len() > 0,
            replace_all(s@, pat@, rep@) == out@ + replace_all(s@.skip(i as int), pat@, rep@),
        decreases s@.len() - i,
    {
        let ghost t = s@.skip(i as int);
        let ghost before = out@;
        if matches_at(s, pat, i) {
            assert(t.take(pat@.len() as int) == s@.subrange(i as int, i + pat@.len()));
            assert(t.skip(pat@.len() as int) == s@.skip(i + pat@.len()));
            let mut j: usize = 0;
            while j < rep.len()
                invariant
                    j <= rep@.len(),
                    out@ == before + rep@.take(j as int),
                decreases rep@.len() - j,
            {
                out.push(rep[j]);
                assert(rep@.take(j as int).push(rep@[j as int]) == rep@.take(j + 1));
                j = j + 1;
            }
            assert(rep@.take(rep@.len() as int) == rep@);
            assert(out@ + replace_all(s@.skip(i + pat@.len()), pat@, rep@) == before + (rep@
                + replace_all(t.skip(pat@.len() as int), pat@, rep@)));
            i = i + pat.len();
        } else {
            proof {
                if 0 < pat@.len() <= t.len() && t.take(pat@.len() as int) == pat@ {
                    assert(t.take(pat@.len() as int) == s@.subrange(i as int, i + pat@.len()));
                }
                assert(t.drop_first() == s@.skip(i + 1));
            }
            out.push(s[i]);
            assert(out@ + replace_all(s@.skip(i + 1), pat@, rep@) == before + (seq![t[0]]
                + replace_all(t.drop_first(), pat@, rep@)));
            i = i + 1;
        }
    }
    assert(s@.skip(i as int).len() == 0);
    assert(out@ + Seq::<char>::empty() == out@);
    out
}

/// The character of a decimal digit.
pub open spec fn digit_char(d: nat) -> char {
    if d == 0 {
        '0'
    } else if d == 1 {
        '1'
    } else if d == 2 {
        '2'
    } else if d == 3 {
        '3'
    } else if d == 4 {
        '4'
    } else if d == 5 {
        '5'
    } else if d == 6 {
        '6'
    } else if d == 7 {
        '7'
    } else if d == 8 {
        '8'
    } else {
        '9'
    }
}

/// The decimal notation of a number, as `format!("{}", n)` writes it.
pub open spec fn decimal(n: nat) -> Seq<char>
    decreases n,
{
    if n < 10 {
        seq![digit_char(n)]
    } else {
        decimal(n / 10).push(digit_char(n % 10))
    }
}

fn digit(d: usize) -> (c: char)
    requires
        d < 10,
    ensures
        c == digit_char(d as nat),
{
    if d == 0 {
        '0'
    } else if d == 1 {
        '1'
    } else if d == 2 {
        '2'
    } else if d == 3 {
        '3'
    } else if d == 4 {
        '4'
    } else if d == 5 {
        '5'
    } else if d == 6 {
        '6'
    } else if d == 7 {
        '7'
    } else if d == 8 {
        '8'
    } else {
        '9'
    }
}

/// The decimal notation of `n`.
pub fn decimal_chars(n: usize) -> (v: Vec<char>)
    ensures
        v@ == decimal(n as nat),
    decreases n,
{
    if n < 10 {
        let mut v: Vec<char> = Vec::new();
        v.push(digit(n));
        assert(v@ == seq![digit_char(n as nat)]);
        v
    } else {
        let mut v = decimal_chars(n / 10);
        v.push(digit(n % 10));
        v
    }
}

/// Whether two texts are equal.
pub fn chars_eq(a: &[char], b: &[char]) -> (r: bool)
    ensures
        r == (a@ == b@),
{
    if a.len() != b.len() {
        return false;
    }
    let r = matches_at(a, b, 0);
    assert(a@.subrange(0, b@.len() as int) == a@);
    r
}

/// Whether `s` begins with `p`.
pub fn starts_with(s: &[char], p: &[char]) -> (r: bool)
    ensures
        r == (p@.len() <= s@.len() && s@.take(p@.len() as int) == p@),
{
    let r = matches_at(s, p, 0);
    proof {
        if p@.len() <= s@.len() {
            assert(s@.subrange(0, p@.len() as int) == s@.take(p@.len() as int));
        }
    }
    r
}

/// Whether two string slices are equal.
pub fn str_eq(a: &str, b: &str) -> (r: bool)
    ensures
        r == (a@ == b@),
{
    let x = chars_of(a);
    let y = chars_of(b);
    chars_eq(x.as_slice(), y.as_slice())
}

/// The view of an optional string.
pub open spec fn opt_view(o: Option<String>) -> Option<Seq<char>> {
    match o {
        Some(s) => Some(s@),
        None => None,
    }
}

/// Each text with every occurrence of `pat` replaced by `rep`.
pub open spec fn replace_each(ks: Seq<Seq<char>>, pat: Seq<char>, rep: Seq<char>) -> Seq<Seq<char>> {
    ks.map_values(|k: Seq<char>| replace_all(k, pat, rep))
}

/// `key.replace(pat, rep)` for each key, in order.
pub fn replace_in_strings(keys: &[String], pat: &[char], rep: &[char]) -> (out: Vec<String>)
    requires
        pat@.len() > 0,
    ensures
        strings_view(out@) == replace_each(strings_view(keys@), pat@, rep@),
{
    let mut out: Vec<String> = Vec::new();
    let mut i: usize = 0;
    while i < keys.len()
        invariant
            i <= keys@.len(),
            pat@.len() > 0,
            out@.len() == i,
            forall|j: int|
                0 <= j < i ==> #[trigger] out@[j]@ == replace_all(keys@[j]@, pat@, rep@),
        decreases keys@.len() - i,
    {
        let k = chars_of(keys[i].as_str());
        let r = replace_chars(k.as_slice(), pat, rep);
        out.push(string_of(r.as_slice()));
        i = i + 1;
    }
    assert(strings_view(out@) =~= replace_each(strings_view(keys@), pat@, rep@));
    out
}

/// `${n}`, the placeholder for the `n`-th value.
pub open spec fn placeholder(n: nat) -> Seq<char> {
    seq!['$', '{'] + decimal(n) + seq!['}']
}

/// The characters of `${n}`.
pub fn placeholder_chars(n: usize) -> (v: Vec<char>)
    ensures
        v@ == placeholder(n as nat),
        v@.len() > 0,
{
    let mut v: Vec<char> = Vec::new();
    v.push('$');
    v.push('{');
    let d = decimal_chars(n);
    let mut i: usize = 0;
    while i < d.len()
        invariant
            i <= d@.len(),
            v@ == seq!['$', '{'] + d@.take(i as int),
        decreases d@.len() - i,
    {
        v.push(d[i]);
        assert(d@.take(i as int).push(d@[i as int]) == d@.take(i + 1));
        i = i + 1;
    }
    assert(d@.take(d@.len() as int) == d@);
    v.push('}');
    assert(v@ =~= placeholder(n as nat));
    v
}


/// No character of `s` is `$`.
pub open spec fn dollar_free(s: Seq<char>) -> bool {
    forall|i: int| 0 <= i < s.len() ==> s[i] != '$'
}

/// A decimal digit.
pub open spec fn is_digit(c: char) -> bool {
    '0' <= c <= '9'
}

proof fn lemma_decimal_digits(n: nat)
    ensures
        decimal(n).len() >= 1,
        n < 10 <==> decimal(n).len() == 1,
        forall|i: int| 0 <= i < decimal(n).len() ==> is_digit(#[trigger] decimal(n)[i]),
    decreases n,
{
    if n >= 10 {
        lemma_decimal_digits(n / 10);
        let d = decimal(n / 10);
        assert forall|i: int| 0 <= i < decimal(n).len() implies is_digit(#[trigger] decimal(n)[i]) by {
            if i < d.len() {
                assert(decimal(n)[i] == d[i]);
            }
        }
    }
}

proof fn lemma_decimal_injective(a: nat, b: nat)
    requires
        decimal(a) == decimal(b),
    ensures
        a == b,
    decreases a,
{
    lemma_decimal_digits(a);
    lemma_decimal_digits(b);
    if a >= 10 && b >= 10 {
        assert(decimal(a).drop_last() == decimal(a / 10));
        assert(decimal(b).drop_last() == decimal(b / 10));
        assert(decimal(a).last() == digit_char(a % 10));
        assert(decimal(b).last() == digit_char(b % 10));
        lemma_decimal_injective(a / 10, b / 10);
    } else {
        assert(decimal(a)[0] == digit_char(a));
        assert(decimal(b)[0] == digit_char(b));
    }
}

/// A placeholder other than `${j}` never starts where `${j}` starts,
/// whatever follows it.
pub proof fn lemma_placeholders_distinct(i: nat, j: nat, rest: Seq<char>)
    requires
        i != j,
    ensures
        !(placeholder(i).len() <= (placeholder(j) + rest).len() && (placeholder(j) + rest).take(
            placeholder(i).len() as int,
        ) == placeholder(i)),
{
    let pi = placeholder(i);
    let s = placeholder(j) + rest;
    let di = decimal(i);
    let dj = decimal(j);
    lemma_decimal_digits(i);
    lemma_decimal_digits(j);
    if pi.len() <= s.len() && s.take(pi.len() as int) == pi {
        if di.len() == dj.len() {
            assert forall|k: int| 0 <= k < di.len() implies di[k] == dj[k] by {
                assert(pi[k + 2] == di[k]);
                assert(s.take(pi.len() as int)[k + 2] == s[k + 2]);
                assert(s[k + 2] == placeholder(j)[k + 2]);
            }
            assert(di =~= dj);
            lemma_decimal_injective(i, j);
        } else if di.len() < dj.len() {
            let k = di.len() as int;
            assert(pi[k + 2] == '}');
            assert(s.take(pi.len() as int)[k + 2] == s[k + 2]);
            assert(s[k + 2] == dj[k]);
            assert(is_digit(dj[k]));
        } else {
            let k = dj.len() as int;
            assert(pi[k + 2] == di[k]);
            assert(is_digit(di[k]));
            assert(s.take(pi.len() as int)[k + 2] == s[k + 2]);
            assert(s[k + 2] == '}');
        }
    }
}

/// The characters after the `$` of a placeholder hold no `$`.
pub proof fn lemma_placeholder_tail_dollar_free(j: nat)
    ensures
        placeholder(j)[0] == '$',
        dollar_free(placeholder(j).drop_first()),
{
    lemma_decimal_digits(j);
    let t = placeholder(j).drop_first();
    assert forall|k: int| 0 <= k < t.len() implies t[k] != '$' by {
        assert(t[k] == placeholder(j)[k + 1]);
        if 1 <= k < 1 + decimal(j).len() {
            assert(placeholder(j)[k + 1] == decimal(j)[k - 1]);
            assert(is_digit(decimal(j)[k - 1]));
        }
    }
}

/// Replacing a pattern that begins with `$` leaves a `$`-free start as it is.
pub proof fn lemma_replace_free_prefix(a: Seq<char>, y: Seq<char>, pat: Seq<char>, rep: Seq<char>)
    requires
        pat.len() > 0,
        pat[0] == '$',
        dollar_free(a),
    ensures
        replace_all(a + y, pat, rep) == a + replace_all(y, pat, rep),
    decreases a.len(),
{
    if a.len() > 0 {
        let s = a + y;
        if pat.len() <= s.len() && s.take(pat.len() as int) == pat {
            assert(s.take(pat.len() as int)[0] == s[0]);
        }
        assert(s.drop_first() == a.drop_first() + y);
        lemma_replace_free_prefix(a.drop_first(), y, pat, rep);
        assert(seq![a[0]] + a.drop_first() == a);
    } else {
        assert(a + y == y);
    }
}

/// Replacing `pat` in a text that starts with it puts `rep` in its place.
pub proof fn lemma_replace_at_start(y: Seq<char>, pat: Seq<char>, rep: Seq<char>)
    requires
        pat.len() > 0,
    ensures
        replace_all(pat + y, pat, rep) == rep + replace_all(y, pat, rep),
{
    let s = pat + y;
    assert(s.take(pat.len() as int) == pat);
    assert(s.skip(pat.len() as int) == y);
}

/// Filling `${i}` leaves a text whose only `$` starts another placeholder
/// `${j}` as it is.
pub proof fn lemma_replace_other_placeholder(a: Seq<char>, j: nat, b: Seq<char>, i: nat, rep: Seq<char>)
    requires
        i != j,
        dollar_free(a),
        dollar_free(b),
    ensures
        replace_all(a + placeholder(j) + b, placeholder(i), rep) == a + placeholder(j) + b,
{
    let pi = placeholder(i);
    let s = placeholder(j) + b;
    lemma_placeholder_tail_dollar_free(i);
    lemma_placeholder_tail_dollar_free(j);
    assert(a + placeholder(j) + b == a + s);
    lemma_replace_free_prefix(a, s, pi, rep);
    lemma_placeholders_distinct(i, j, b);
    let t = s.drop_first();
    assert(t == placeholder(j).drop_first() + b);
    assert(dollar_free(t));
    lemma_replace_free_prefix(t, Seq::empty(), pi, rep);
    assert(t + Seq::<char>::empty() == t);
    assert(seq![s[0]] + t == s);
}

/// Filling `${j}` in a text whose only `$` starts that placeholder puts the
/// value in its place.
pub proof fn lemma_replace_own_placeholder(a: Seq<char>, j: nat, b: Seq<char>, rep: Seq<char>)
    requires
        dollar_free(a),
        dollar_free(b),
    ensures
        replace_all(a + placeholder(j) + b, placeholder(j), rep) == a + rep + b,
{
    let p = placeholder(j);
    lemma_placeholder_tail_dollar_free(j);
    assert(a + p + b == a + (p + b));
    lemma_replace_free_prefix(a, p + b, p, rep);
    lemma_replace_at_start(b, p, rep);
    lemma_replace_free_prefix(b, Seq::empty(), p, rep);
    assert(b + Seq::<char>::empty() == b);
    assert(a + (rep + b) == a + rep + b);
}

} // verus!
