//! Regular expressions, held as their source text and compiled by the
//! `regex` crate whenever one is applied.
use crate::config::error::ConfigError;
use vstd::prelude::*;

verus! {

/// Whether `regex::Regex::new` accepts the pattern.
pub uninterp spec fn spec_regex_compiles(pattern: Seq<char>) -> bool;

/// What `regex::Regex::captures` gives for the compiled pattern on the
/// haystack: for the leftmost-first match, the text of each capture group
/// (group 0 is the whole match), `None` for a group that took no part.
pub uninterp spec fn spec_regex_captures(pattern: Seq<char>, haystack: Seq<char>) -> Option<
    Seq<Option<Seq<char>>>,
>;

/// What `regex::Regex::replace_all` gives for the compiled pattern on the
/// haystack with the given replacement text.
pub uninterp spec fn spec_regex_replace_all(
    pattern: Seq<char>,
    haystack: Seq<char>,
    replacement: Seq<char>,
) -> Seq<char>;

/// The texts of a capture list.
pub open spec fn groups_view(g: Seq<Option<String>>) -> Seq<Option<Seq<char>>> {
    g.map_values(|m: Option<String>| crate::text::opt_view(m))
}

/// The view of an optional capture list.
pub open spec fn captures_view(c: Option<Vec<Option<String>>>) -> Option<Seq<Option<Seq<char>>>> {
    match c {
        Some(g) => Some(groups_view(g@)),
        None => None,
    }
}

/// `regex::Regex::new(pattern).is_ok()`.
#[verifier::external_body]
fn regex_compiles(pattern: &str) -> (b: bool)
    ensures
        b == spec_regex_compiles(pattern@),
{
    ::regex::Regex::new(pattern).is_ok()
}

/// `regex::Regex::captures` of the compiled pattern, each group turned into
/// an owned string.
#[verifier::external_body]
fn regex_captures(pattern: &str, haystack: &str) -> (r: Option<Vec<Option<String>>>)
    requires
        spec_regex_compiles(pattern@),
    ensures
        captures_view(r) == spec_regex_captures(pattern@, haystack@),
        r matches Some(g) ==> g@.len() > 0 && g@[0] is Some,
{
    let re = ::regex::Regex::new(pattern).unwrap();
    re.captures(haystack).map(|c| c.iter().map(|m| m.map(|m| m.as_str().to_string())).collect())
}

/// `regex::Regex::is_match` of the compiled pattern: whether it matches
/// anywhere, which is whether `captures` finds a match.
#[verifier::external_body]
fn regex_is_match(pattern: &str, haystack: &str) -> (b: bool)
    requires
        spec_regex_compiles(pattern@),
    ensures
        b == spec_regex_captures(pattern@, haystack@) is Some,
{
    ::regex::Regex::new(pattern).unwrap().is_match(haystack)
}

/// `regex::Regex::replace_all` of the compiled pattern.
#[verifier::external_body]
fn regex_replace_all(pattern: &str, haystack: &str, replacement: &str) -> (r: String)
    requires
        spec_regex_compiles(pattern@),
    ensures
        r@ == spec_regex_replace_all(pattern@, haystack@, replacement@),
{
    ::regex::Regex::new(pattern).unwrap().replace_all(haystack, replacement).to_string()
}

/// A regular expression that is known to compile.
#[derive(Debug)]
pub struct Regex {
    source: String,
}

impl View for Regex {
    type V = Seq<char>;

    /// The pattern's source text.
    closed spec fn view(&self) -> Seq<char> {
        self.source@
    }
}

impl Regex {
    #[verifier::type_invariant]
    spec fn compiles(self) -> bool {
        spec_regex_compiles(self.source@)
    }

    /// Compiles a pattern.
    pub fn new(pattern: &str) -> (r: Result<Regex, ConfigError>)
        ensures
            r is Ok <==> spec_regex_compiles(pattern@),
            r matches Ok(re) ==> re@ == pattern@,
            r matches Err(e) ==> e == ConfigError::InvalidRegex,
    {
        if regex_compiles(pattern) {
            Ok(Regex { source: pattern.to_owned() })
        } else {
            Err(ConfigError::InvalidRegex)
        }
    }

    /// The pattern's source text.
    pub fn as_str(&self) -> (s: &str)
        ensures
            s@ == self@,
    {
        self.source.as_str()
    }

    /// The capture groups of the leftmost-first match, if any.
    pub fn captures(&self, haystack: &str) -> (r: Option<Vec<Option<String>>>)
        ensures
            captures_view(r) == spec_regex_captures(self@, haystack@),
            r matches Some(g) ==> g@.len() > 0 && g@[0] is Some,
    {
        proof {
            use_type_invariant(self);
        }
        regex_captures(self.source.as_str(), haystack)
    }

    /// Whether the pattern matches anywhere in the haystack.
    pub fn is_match(&self, haystack: &str) -> (b: bool)
        ensures
            b == spec_regex_captures(self@, haystack@) is Some,
    {
        proof {
            use_type_invariant(self);
        }
        regex_is_match(self.source.as_str(), haystack)
    }

    /// Every match replaced by `replacement`.
    pub fn replace_all(&self, haystack: &str, replacement: &str) -> (r: String)
        ensures
            r@ == spec_regex_replace_all(self@, haystack@, replacement@),
    {
        proof {
            use_type_invariant(self);
        }
        regex_replace_all(self.source.as_str(), haystack, replacement)
    }
}

impl Clone for Regex {
    fn clone(&self) -> (r: Self)
        ensures
            r@ == self@,
    {
        proof {
            use_type_invariant(self);
        }
        Regex { source: self.source.clone() }
    }
}

} // verus!
