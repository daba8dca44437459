//! Duration and action parsing shared by triggers and rules.
use crate::config::error::ConfigError;
use crate::text::{chars_of, clone_strings, opt_view, str_eq, strings_view};
use vstd::prelude::*;

verus! {

/// What a trigger or a rule does: send keys to the terminal.
#[derive(Debug, Clone, PartialEq)]
pub enum ActionType {
    SendKeys(Vec<String>),
}

impl View for ActionType {
    type V = Seq<Seq<char>>;

    /// The keys that the action sends.
    open spec fn view(&self) -> Seq<Seq<char>> {
        match self {
            ActionType::SendKeys(keys) => strings_view(keys@),
        }
    }
}

/// An ASCII decimal digit.
pub open spec fn is_digit(c: char) -> bool {
    '0' <= c <= '9'
}

/// The value of a digit character.
pub open spec fn digit_value(c: char) -> nat {
    (c as int - '0' as int) as nat
}

/// The value of a string of decimal digits.
pub open spec fn digits_value(ds: Seq<char>) -> nat
    decreases ds.len(),
{
    if ds.len() == 0 {
        0
    } else {
        digits_value(ds.drop_last()) * 10 + digit_value(ds.last())
    }
}

/// The digits that `u64::from_str` reads: the text less one leading `+`.
pub open spec fn unsigned_digits(s: Seq<char>) -> Seq<char> {
    if s.len() > 0 && s[0] == '+' {
        s.drop_first()
    } else {
        s
    }
}

/// What `u64::from_str` accepts: an optional `+`, then one or more ASCII
/// digits whose value fits in a `u64`.
pub open spec fn spec_parse_u64(s: Seq<char>) -> Option<u64> {
    let ds = unsigned_digits(s);
    if ds.len() > 0 && (forall|i: int| 0 <= i < ds.len() ==> is_digit(#[trigger] ds[i]))
        && digits_value(ds) <= u64::MAX {
        Some(digits_value(ds) as u64)
    } else {
        None
    }
}

proof fn lemma_digits_value_prefix(ds: Seq<char>, k: int)
    requires
        0 <= k <= ds.len(),
    ensures
        digits_value(ds.take(k)) <= digits_value(ds),
    decreases ds.len(),
{
    if k < ds.len() {
        assert(ds.drop_last().take(k) == ds.take(k));
        lemma_digits_value_prefix(ds.drop_last(), k);
    } else {
        assert(ds.take(k) == ds);
    }
}

/// Reads a `u64` as `u64::from_str` does.
pub fn parse_u64(s: &[char]) -> (r: Option<u64>)
    ensures
        r == spec_parse_u64(s@),
{
    let ghost ds = unsigned_digits(s@);
    let start: usize = if s.len() > 0 && s[0] == '+' {
        1
    } else {
        0
    };
    assert(ds == s@.skip(start as int));
    if start == s.len() {
        return None;
    }
    let mut v: u64 = 0;
    let mut i: usize = start;
    assert(ds.take(0) == Seq::<char>::empty());
    while i < s.len()
        invariant
            start <= i <= s@.len(),
            ds == s@.skip(start as int),
            ds == unsigned_digits(s@),
            forall|j: int| 0 <= j < i - start ==> is_digit(#[trigger] ds[j]),
            v == digits_value(ds.take(i - start)),
        decreases s@.len() - i,
    {
        let c = s[i];
        assert(ds[i - start] == c);
        if !('0' <= c && c <= '9') {
            assert(!is_digit(ds[i - start]));
            return None;
        }
        let d: u64 = (c as u32 - '0' as u32) as u64;
        assert(d == digit_value(c));
        assert(is_digit(ds[i - start]));
        assert(ds.take(i - start + 1).drop_last() == ds.take(i - start));
        assert(ds.take(i - start + 1).last() == c);
        let next = match v.checked_mul(10) {
            Some(t) => t.checked_add(d),
            None => None,
        };
        match next {
            Some(n) => {
                v = n;
            },
            None => {
                proof {
                    assert(digits_value(ds.take(i - start + 1)) == v * 10 + d);
                    assert(v * 10 + d > u64::MAX) by (nonlinear_arith)
                        requires
                            next is None,
                            next == (if v * 10 <= u64::MAX { if v * 10 + d <= u64::MAX { Some((v * 10 + d) as u64) } else { None::<u64> } } else { None::<u64> }),
                    ;
                    lemma_digits_value_prefix(ds, i - start + 1);
                }
                return None;
            },
        }
        i = i + 1;
    }
    assert(ds.take(i - start) == ds);
    Some(v)
}

/// Seconds per unit: `s`, `m` or `h`.
pub open spec fn unit_seconds(u: char) -> nat {
    if u == 's' {
        1
    } else if u == 'm' {
        60
    } else {
        3600
    }
}

/// `s`, `m` or `h`.
pub open spec fn is_duration_unit(u: char) -> bool {
    u == 's' || u == 'm' || u == 'h'
}

/// A duration such as `30s`, `5m` or `2h`, in seconds: a `u64` number
/// followed by one unit letter.
pub open spec fn spec_parse_duration(s: Seq<char>) -> Result<nat, ConfigError> {
    if s.len() == 0 {
        Err(ConfigError::EmptyDuration)
    } else if !is_duration_unit(s.last()) {
        Err(ConfigError::InvalidDurationUnit)
    } else {
        match spec_parse_u64(s.drop_last()) {
            Some(n) => Ok(n as nat * unit_seconds(s.last())),
            None => Err(ConfigError::InvalidDurationNumber),
        }
    }
}

/// A duration whose number of seconds fits in a `u64` (the multiplication by
/// the unit does not overflow), or one that is refused anyway.
pub open spec fn duration_fits(s: Seq<char>) -> bool {
    match spec_parse_duration(s) {
        Ok(n) => n <= u64::MAX,
        Err(_) => true,
    }
}

/// The seconds of a parsed duration, as the `u64` that holds them.
pub open spec fn duration_result(r: Result<nat, ConfigError>) -> Result<u64, ConfigError> {
    match r {
        Ok(n) => Ok(n as u64),
        Err(e) => Err(e),
    }
}

/// Whether a duration text can be parsed without its number of seconds
/// overflowing a `u64`.
pub fn duration_within_range(s: &[char]) -> (b: bool)
    ensures
        b == duration_fits(s@),
{
    if s.len() == 0 {
        return true;
    }
    let unit = s[s.len() - 1];
    let factor: u64 = if unit == 's' {
        1
    } else if unit == 'm' {
        60
    } else if unit == 'h' {
        3600
    } else {
        return true;
    };
    assert(s@.subrange(0, s@.len() - 1) == s@.drop_last());
    match parse_u64(&s[0..s.len() - 1]) {
        Some(n) => {
            let limit = u64::MAX / factor;
            assert(factor == unit_seconds(unit));
            assert((n <= limit) == (n * factor <= u64::MAX)) by (nonlinear_arith)
                requires
                    factor > 0,
                    limit == u64::MAX / factor,
            ;
            n <= limit
        },
        None => true,
    }
}

/// Parses a duration such as `30s`, `5m` or `2h` into seconds.
pub fn parse_duration(s: &str) -> (r: Result<u64, ConfigError>)
    requires
        duration_fits(s@),
    ensures
        r == duration_result(spec_parse_duration(s@)),
{
    let cs = chars_of(s);
    parse_duration_chars(cs.as_slice())
}

/// [`parse_duration`] on the characters of the text.
pub fn parse_duration_chars(s: &[char]) -> (r: Result<u64, ConfigError>)
    requires
        duration_fits(s@),
    ensures
        r == duration_result(spec_parse_duration(s@)),
{
    if s.len() == 0 {
        return Err(ConfigError::EmptyDuration);
    }
    let unit = s[s.len() - 1];
    let factor: u64 = if unit == 's' {
        1
    } else if unit == 'm' {
        60
    } else if unit == 'h' {
        3600
    } else {
        return Err(ConfigError::InvalidDurationUnit);
    };
    assert(s@.subrange(0, s@.len() - 1) == s@.drop_last());
    match parse_u64(&s[0..s.len() - 1]) {
        Some(n) => {
            assert(n * factor == n * unit_seconds(unit));
            Ok(n * factor)
        },
        None => Err(ConfigError::InvalidDurationNumber),
    }
}

/// The keys of a `send_keys` action, or why the action fields are refused.
pub open spec fn spec_parse_action(action: Option<Seq<char>>, keys: Seq<Seq<char>>) -> Result<
    Seq<Seq<char>>,
    ConfigError,
> {
    match action {
        None => Err(ConfigError::MissingAction),
        Some(a) => if a == "send_keys"@ {
            if keys.len() == 0 {
                Err(ConfigError::MissingKeys)
            } else {
                Ok(keys)
            }
        } else {
            Err(ConfigError::UnknownAction)
        },
    }
}

/// Parses and validates the action fields of a configuration entry.
pub fn parse_action(action: &Option<String>, keys: &[String]) -> (r: Result<
    ActionType,
    ConfigError,
>)
    ensures
        match spec_parse_action(opt_view(*action), strings_view(keys@)) {
            Ok(ks) => r matches Ok(a) && a@ == ks,
            Err(e) => r == Err::<ActionType, ConfigError>(e),
        },
{
    match action {
        None => Err(ConfigError::MissingAction),
        Some(a) => {
            if str_eq(a.as_str(), "send_keys") {
                if keys.len() == 0 {
                    Err(ConfigError::MissingKeys)
                } else {
                    let ks = clone_strings(keys);
                    Ok(ActionType::SendKeys(ks))
                }
            } else {
                Err(ConfigError::UnknownAction)
            }
        },
    }
}

/// The units scale one number: a number of minutes is sixty times that
/// number of seconds and a number of hours 3600 times; a number refused in
/// one unit is refused, for the same reason, in all three.
pub proof fn law_duration_units(digits: Seq<char>)
    ensures
        match spec_parse_duration(digits.push('s')) {
            Ok(n) => spec_parse_duration(digits.push('m')) == Ok::<nat, ConfigError>(60 * n)
                && spec_parse_duration(digits.push('h')) == Ok::<nat, ConfigError>(3600 * n),
            Err(e) => spec_parse_duration(digits.push('m')) == Err::<nat, ConfigError>(e)
                && spec_parse_duration(digits.push('h')) == Err::<nat, ConfigError>(e),
        },
{
    assert(digits.push('s').drop_last() =~= digits);
    assert(digits.push('m').drop_last() =~= digits);
    assert(digits.push('h').drop_last() =~= digits);
    assert(digits.push('s').last() == 's');
    assert(digits.push('m').last() == 'm');
    assert(digits.push('h').last() == 'h');
    match spec_parse_u64(digits) {
        Some(v) => {
            assert(spec_parse_duration(digits.push('s')) == Ok::<nat, ConfigError>(v as nat * 1));
            assert(spec_parse_duration(digits.push('m')) == Ok::<nat, ConfigError>(v as nat * 60));
            assert(spec_parse_duration(digits.push('h')) == Ok::<nat, ConfigError>(v as nat * 3600));
        },
        None => {},
    }
}

} // verus!
