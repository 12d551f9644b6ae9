//! Calendar days and instants as plain numbers, with their text forms.
//!
//! A day is its number in the proleptic Gregorian calendar with January 1
//! of year 1 as day 1 (chrono's `num_days_from_ce`). An instant is a count
//! of nanoseconds since 1970-01-01T00:00:00Z, without leap seconds.

use vstd::prelude::*;
use crate::text::trunc_div;

verus! {

/// Day number of the earliest date chrono represents (January 1, 262144 BCE).
pub const MIN_DAY: i32 = -95746129;

/// Day number of the latest date chrono represents (December 31, 262142 CE).
pub const MAX_DAY: i32 = 95745399;

/// Day number of 1970-01-01.
pub const UNIX_EPOCH_DAY: i64 = 719163;

/// Nanoseconds in a second.
pub const NANOS_PER_SEC: i128 = 1_000_000_000;

/// A day that chrono can represent.
pub open spec fn valid_day(day: int) -> bool {
    MIN_DAY <= day <= MAX_DAY
}

/// An instant whose calendar day chrono can represent.
pub open spec fn valid_instant(t: int) -> bool {
    valid_day((t / NANOS_PER_SEC as int) / 86400 + UNIX_EPOCH_DAY)
}

/// Whole seconds from `start` to `end`, truncated toward zero, as chrono's
/// `signed_duration_since(..).num_seconds()` gives them.
pub open spec fn whole_seconds(start: int, end: int) -> int {
    trunc_div(end - start, NANOS_PER_SEC as int)
}

/// Two instants whose difference, and its whole seconds, fit the integers
/// they are computed in (`i128` nanoseconds, chrono's `i64` seconds).
pub open spec fn instants_close(start: i128, end: i128) -> bool {
    &&& i128::MIN <= end - start <= i128::MAX
    &&& i64::MIN <= whole_seconds(start as int, end as int) <= i64::MAX
}

/// The `YYYY-MM-DD` text chrono writes for a day.
pub uninterp spec fn date_text(day: i32) -> Seq<char>;

/// The RFC 3339 text chrono writes for an instant given as whole seconds
/// since the epoch and nanoseconds past them.
pub uninterp spec fn rfc3339_text(secs: i64, nanos: u32) -> Seq<char>;

/// Formats a day.
///
/// Trusted: calls `NaiveDate::from_num_days_from_ce_opt` and the date's
/// `Display`. chrono's tests show the constructor gives `Some` exactly from
/// `NaiveDate::MIN` to `NaiveDate::MAX`, whose day numbers are `MIN_DAY` and
/// `MAX_DAY`; the text depends on the day alone.
#[verifier::external_body]
fn format_day(day: i32) -> (r: Option<String>)
    ensures
        r is Some <==> valid_day(day as int),
        r matches Some(s) ==> s@ == date_text(day),
{
    match chrono::NaiveDate::from_num_days_from_ce_opt(day) {
        Some(d) => Some(d.to_string()),
        None => None,
    }
}

/// Formats an instant.
///
/// Trusted: calls `DateTime::<Utc>::from_timestamp` and `to_rfc3339`. The
/// constructor gives `Some` when the day `secs.div_euclid(86400) + 719163`
/// is representable and `nanos` is below one second; the text depends on the
/// arguments alone. What happens for leap-second nanos is not stated.
#[verifier::external_body]
fn format_timestamp(secs: i64, nanos: u32) -> (r: Option<String>)
    ensures
        valid_day(secs as int / 86400 + UNIX_EPOCH_DAY) && nanos < 1_000_000_000 ==> r is Some,
        r matches Some(s) ==> s@ == rfc3339_text(secs, nanos),
{
    match chrono::DateTime::<chrono::Utc>::from_timestamp(secs, nanos) {
        Some(d) => Some(d.to_rfc3339()),
        None => None,
    }
}

/// The `YYYY-MM-DD` text of a day.
pub fn day_string(day: i32) -> (s: String)
    requires
        valid_day(day as int),
    ensures
        s@ == date_text(day),
{
    match format_day(day) {
        Some(s) => s,
        None => String::new(),
    }
}

/// Whole seconds since the epoch and nanoseconds past them.
pub open spec fn split_instant(t: int) -> (int, int) {
    (t / NANOS_PER_SEC as int, t % NANOS_PER_SEC as int)
}

/// Whole seconds from `start` to `end`, truncated toward zero.
pub fn seconds_between(start: i128, end: i128) -> (secs: i64)
    requires
        instants_close(start, end),
    ensures
        secs == whole_seconds(start as int, end as int),
{
    let diff: i128 = end - start;
    let q: i128 = if diff >= 0 {
        diff / NANOS_PER_SEC
    } else {
        0 - (0 - diff) / NANOS_PER_SEC
    };
    q as i64
}

/// The RFC 3339 text of an instant.
pub fn rfc3339_string(t: i128) -> (s: String)
    requires
        valid_instant(t as int),
    ensures
        s@ == rfc3339_text(split_instant(t as int).0 as i64, split_instant(t as int).1 as u32),
{
    let q: i128;
    let r: i128;
    if t >= 0 {
        q = t / NANOS_PER_SEC;
        r = t % NANOS_PER_SEC;
    } else {
        let m: i128 = -t;
        let mq = m / NANOS_PER_SEC;
        let mr = m % NANOS_PER_SEC;
        if mr == 0 {
            q = -mq;
            r = 0;
        } else {
            q = -mq - 1;
            r = NANOS_PER_SEC - mr;
        }
    }
    proof {
        let ti = t as int;
        let n = NANOS_PER_SEC as int;
        assert(q * n + r == ti) by (nonlinear_arith)
            requires
                (ti >= 0 ==> q == ti / n && r == ti % n),
                (ti < 0 ==> (-ti) % n == 0 ==> q == -((-ti) / n) && r == 0),
                (ti < 0 ==> (-ti) % n != 0 ==> q == -((-ti) / n) - 1 && r == n - (-ti) % n),
                n > 0,
        ;
        assert(0 <= r < n);
        vstd::arithmetic::div_mod::lemma_fundamental_div_mod_converse(ti, n, q as int, r as int);
    }
    let secs = q as i64;
    let nanos = r as u32;
    match format_timestamp(secs, nanos) {
        Some(s) => s,
        None => String::new(),
    }
}

} // verus!
