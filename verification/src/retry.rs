//! Exponential backoff of failed work.
use vstd::arithmetic::power2::{
    lemma2_to64, lemma2_to64_rest, lemma_pow2_pos, lemma_pow2_strictly_increases,
    lemma_pow2_unfold, pow2,
};
use vstd::prelude::*;

use crate::casts;

verus! {

/// The delay before the first retry, in seconds.
pub const BASE_DELAY: i64 = 5;

/// The delay, in seconds, after `retries` earlier retries: the base delay doubled that many times.
pub open spec fn delay(retries: int) -> int {
    BASE_DELAY * pow2(retries as nat)
}

/// Whether the next retry can be computed in 64 bits: the count is not negative, and neither the
/// delay nor the instant it leads to overflows.
pub open spec fn in_range(now: u64, retries: i16) -> bool {
    &&& retries >= 0
    &&& delay(retries as int) <= i64::MAX
    &&& casts::signed_of(now) + delay(retries as int) <= i64::MAX
}

/// The instant of the next retry of work that failed at `now` after `retries` earlier retries.
pub open spec fn next_retry_at(now: u64, retries: i16) -> int {
    casts::signed_of(now) + delay(retries as int)
}

proof fn lemma_delay_unfold(retries: int)
    requires
        retries >= 0,
    ensures
        delay(0) == BASE_DELAY,
        delay(retries + 1) == 2 * delay(retries),
        delay(retries) >= BASE_DELAY,
{
    lemma_pow2_unfold((retries + 1) as nat);
    lemma_pow2_pos(retries as nat);
    lemma2_to64();
}

proof fn lemma_delay_monotone(a: int, b: int)
    requires
        0 <= a <= b,
    ensures
        delay(a) <= delay(b),
{
    if a < b {
        lemma_pow2_strictly_increases(a as nat, b as nat);
    }
}

/// The delay after `retries` earlier retries, or `None` where it does not fit in 64 bits or the
/// count is negative.
fn checked_delay(retries: i16) -> (r: Option<i64>)
    ensures
        (match r {
            Some(d) => retries >= 0 && d == delay(retries as int),
            None => retries < 0 || delay(retries as int) > i64::MAX,
        }),
{
    if retries < 0 {
        return None;
    }
    proof {
        lemma_delay_unfold(0);
    }
    let mut d: i64 = BASE_DELAY;
    let mut i: i16 = 0;
    while i < retries
        invariant
            0 <= i <= retries,
            d == delay(i as int),
        decreases retries - i,
    {
        proof {
            lemma_delay_unfold(i as int);
            lemma_delay_monotone(i + 1, retries as int);
        }
        if d > i64::MAX / 2 {
            return None;
        }
        d = d * 2;
        i = i + 1;
    }
    Some(d)
}

/// Tells whether the next retry can be computed.
pub fn can_retry(now: u64, retries: i16) -> (r: bool)
    ensures
        r == in_range(now, retries),
{
    let at: i64 = casts::to_signed(now);
    match checked_delay(retries) {
        Some(d) => {
            proof {
                lemma_delay_unfold(retries as int);
            }
            at <= i64::MAX - d
        },
        None => false,
    }
}

/// Computes the instant of the next retry.
pub fn next_retry(now: u64, retries: i16) -> (r: i64)
    requires
        in_range(now, retries),
    ensures
        r == next_retry_at(now, retries),
{
    let at: i64 = casts::to_signed(now);
    match checked_delay(retries) {
        Some(d) => {
            proof {
                lemma_delay_unfold(retries as int);
            }
            at + d
        },
        None => at,
    }
}

/// A retry lies at least the base delay after the failure.
pub proof fn law_retry_lies_ahead(now: u64, retries: i16)
    requires
        in_range(now, retries),
    ensures
        next_retry_at(now, retries) >= casts::signed_of(now) + BASE_DELAY,
{
    lemma_delay_unfold(retries as int);
}

/// Each further failure doubles the delay.
pub proof fn law_delay_doubles(retries: int)
    requires
        retries >= 0,
    ensures
        delay(0) == BASE_DELAY,
        delay(retries + 1) == 2 * delay(retries),
{
    lemma_delay_unfold(retries);
}

/// Whatever can be rescheduled has a retry count that can still be raised by one.
pub proof fn law_count_can_grow(now: u64, retries: i16)
    requires
        in_range(now, retries),
    ensures
        0 <= retries <= 60,
{
    if retries > 60 {
        lemma_delay_monotone(61, retries as int);
        lemma2_to64();
        lemma2_to64_rest();
    }
}

/// The first retry lies five seconds after the failure, and each further one twice as far after it
/// as the one before: five times a power of two.
pub proof fn law_retry_backs_off(now: u64, retries: i16)
    requires
        0 <= retries < i16::MAX,
    ensures
        next_retry_at(now, 0) - casts::signed_of(now) == 5,
        next_retry_at(now, (retries + 1) as i16) - casts::signed_of(now) == 2 * (next_retry_at(
            now,
            retries,
        ) - casts::signed_of(now)),
        next_retry_at(now, retries) - casts::signed_of(now) == 5 * pow2(retries as nat),
{
    lemma_delay_unfold(retries as int);
}

/// A retry can be computed exactly where no step of computing it overflows: not the power of two,
/// the delay or the instant.
pub proof fn law_retry_in_range_exactly_without_overflow(now: u64, retries: i16)
    ensures
        in_range(now, retries) <==> retries >= 0 && 5 * pow2(retries as nat) <= i64::MAX
            && casts::signed_of(now) + 5 * pow2(retries as nat) <= i64::MAX,
{
}

} // verus!
