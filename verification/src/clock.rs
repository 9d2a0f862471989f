//! Moments and spans of time.
//!
//! A moment is a number of nanoseconds since the Unix epoch, negative before it; what is stored
//! and sent is in microseconds or seconds.

use vstd::prelude::*;

verus! {

/// The number, or the nearest one that an `i64` holds.
pub open spec fn saturated(n: int) -> int {
    if n > i64::MAX {
        i64::MAX as int
    } else if n < i64::MIN {
        i64::MIN as int
    } else {
        n
    }
}

/// Seconds in microseconds, as far as an `i64` holds them.
pub fn micros_of_secs(secs: i64) -> (r: i64)
    ensures
        r == saturated(secs * 1_000_000),
{
    match secs.checked_mul(1_000_000) {
        Some(n) => n,
        None => if secs > 0 {
            i64::MAX
        } else {
            i64::MIN
        },
    }
}

/// The sum, or the nearest number that an `i64` holds.
pub fn saturating_sum(a: i64, b: i64) -> (r: i64)
    ensures
        r == saturated(a + b),
{
    match a.checked_add(b) {
        Some(n) => n,
        None => if a > 0 {
            i64::MAX
        } else {
            i64::MIN
        },
    }
}

/// The microseconds of a moment. One before the epoch, and one too late for an `i64`, is the last.
pub open spec fn micros_of(now: i128) -> i64 {
    if now < 0 || now / 1000 > i64::MAX {
        i64::MAX
    } else {
        (now / 1000) as i64
    }
}

/// The microseconds of a moment since the epoch, for a comparison with an expiry. A clock that
/// cannot be read as such counts as the end of time, so that everything has expired.
pub fn epoch_micros(now: i128) -> (r: i64)
    ensures
        r == micros_of(now),
{
    if now < 0 {
        return i64::MAX;
    }
    let n: i128 = now / 1000;
    if n > i64::MAX as i128 {
        i64::MAX
    } else {
        n as i64
    }
}

/// The moment of a number of microseconds since the epoch.
pub fn system_time_from_micros(micros: i64) -> (r: i128)
    ensures
        r == micros * 1000,
{
    (micros as i128) * 1000
}

/// Microseconds in whole seconds, rounded down.
pub fn secs_of_micros(micros: i64) -> (r: i64)
    ensures
        r == micros as int / 1_000_000,
{
    match micros.checked_div_euclid(1_000_000) {
        Some(n) => n,
        None => 0,
    }
}

/// The last moment that a clock holds: the last nanosecond of the last second of an `i64`.
pub const LAST_MOMENT: i128 = 9_223_372_036_854_775_807_999_999_999;

/// The moment a span after another one, or that one itself where a clock does not reach so far.
pub open spec fn later(now: i128, span: u64) -> int {
    if now + span * 1_000_000_000 > LAST_MOMENT {
        now as int
    } else {
        now + span * 1_000_000_000
    }
}

/// The moment `secs` seconds after `now`.
pub fn moment_after(now: i128, secs: u64) -> (r: i128)
    requires
        now <= LAST_MOMENT,
    ensures
        r == later(now, secs),
{
    let span: i128 = (secs as i128) * 1_000_000_000;
    if now + span > LAST_MOMENT {
        now
    } else {
        now + span
    }
}

/// A moment before the epoch, or after what an `i64` counts, has expired everything.
pub proof fn law_an_unreadable_clock_fails_closed(now: i128, expires_micros: i64)
    requires
        now < 0 || now / 1000 > i64::MAX,
    ensures
        expires_micros <= micros_of(now),
{
}

/// What was stored in microseconds is read back.
pub proof fn law_micros_are_read_back(micros: i64)
    requires
        micros >= 0,
    ensures
        micros_of((micros * 1000) as i128) == micros,
{
}

/// A number that an `i64` holds stays; a larger one is the largest, and a smaller one the smallest.
pub proof fn law_a_number_saturates(n: int)
    ensures
        i64::MIN <= n <= i64::MAX ==> saturated(n) == n,
        n > i64::MAX ==> saturated(n) == i64::MAX,
        n < i64::MIN ==> saturated(n) == i64::MIN,
{
}

/// The microseconds of a moment are whole ones, and no later moment has fewer.
pub proof fn law_a_moment_is_counted_in_whole_microseconds(now: i128, then: i128)
    requires
        0 <= now <= then,
        then / 1000 <= i64::MAX,
    ensures
        micros_of(now) * 1000 <= now < (micros_of(now) + 1) * 1000,
        micros_of(now) <= micros_of(then),
{
}

/// A moment after a span is as many seconds later, as long as a clock reaches so far, and never
/// earlier.
pub proof fn law_a_moment_after_a_span_is_later(now: i128, span: u64)
    requires
        now <= LAST_MOMENT,
    ensures
        later(now, span) >= now,
        now + span * 1_000_000_000 <= LAST_MOMENT ==> later(now, span) - now == span * 1_000_000_000,
        later(now, 0) == now,
        later(now, span) <= LAST_MOMENT,
        now + span * 1_000_000_000 > LAST_MOMENT ==> later(now, span) == now,
{
}

} // verus!
