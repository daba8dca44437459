//! Retrying with exponential backoff: the delay before each new attempt,
//! and what to do after an attempt.
use vstd::prelude::*;

verus! {

/// `base` doubled `times` times: `base * 2^times`.
pub open spec fn doubled(base: nat, times: nat) -> nat
    decreases times,
{
    if times == 0 {
        base
    } else {
        2 * doubled(base, (times - 1) as nat)
    }
}

/// The delay after failed attempt number `attempt` (counted from 1):
/// `base * 2^(attempt - 1)`.
pub open spec fn backoff_delay(base: nat, attempt: nat) -> nat {
    doubled(base, (attempt - 1) as nat)
}

proof fn lemma_doubled_monotone(base: nat, j: nat, k: nat)
    requires
        j <= k,
    ensures
        doubled(base, j) <= doubled(base, k),
    decreases k,
{
    if j < k {
        lemma_doubled_monotone(base, j, (k - 1) as nat);
    }
}

/// The delay after failed attempt `attempt`, or `None` when it does not fit
/// in 64 bits.
pub fn backoff_ms(base: u64, attempt: u32) -> (r: Option<u64>)
    requires
        attempt >= 1,
    ensures
        match r {
            Some(d) => d == backoff_delay(base as nat, attempt as nat),
            None => backoff_delay(base as nat, attempt as nat) > u64::MAX,
        },
{
    let times = attempt - 1;
    let mut d: u64 = base;
    let mut i: u32 = 0;
    while i < times
        invariant
            i <= times,
            times == attempt - 1,
            d == doubled(base as nat, i as nat),
        decreases times - i,
    {
        if d > u64::MAX / 2 {
            proof {
                lemma_doubled_monotone(base as nat, (i + 1) as nat, times as nat);
            }
            return None;
        }
        d = d * 2;
        i = i + 1;
    }
    Some(d)
}

/// Each delay is twice the one before: the backoff is exponential.
pub proof fn law_backoff_doubles(base: nat, attempt: nat)
    requires
        attempt >= 1,
    ensures
        backoff_delay(base, attempt + 1) == 2 * backoff_delay(base, attempt),
        backoff_delay(base, 1) == base,
{
}

} // verus!
