//! Wall-clock arithmetic for America/Los_Angeles: when the next local midnight
//! falls, as a UTC instant. The zone keeps UTC-8 in winter and UTC-7 in summer;
//! summer time runs from 02:00 local on the second Sunday of March to 02:00
//! local on the first Sunday of November (the US rules in force since 2007).
//!
//! Days are counted from 0000-03-01 in the proleptic Gregorian calendar, so a
//! "March year" runs from one March 1 to the next and holds both transitions.
use vstd::prelude::*;

verus! {

/// Milliseconds in a day.
pub const DAY_MS: u64 = 86_400_000;

/// Milliseconds in an hour.
pub const HOUR_MS: u64 = 3_600_000;

/// Day number of 1970-01-01, counted from 0000-03-01.
pub const UNIX_EPOCH_DAY: u64 = 719_468;

/// Day number of March 1 of year `y`: every March year has 365 days, plus one
/// when the February that ends it has a 29th.
pub open spec fn march_first(y: int) -> int {
    365 * y + y / 4 - y / 100 + y / 400
}

/// Day `n` lies in the March year `y`.
pub open spec fn is_march_year(n: int, y: int) -> bool {
    0 <= y && march_first(y) <= n < march_first(y + 1)
}

/// The March year that holds day `n`.
pub open spec fn march_year_of(n: int) -> int {
    choose|y: int| is_march_year(n, y)
}

/// Day of the week of day `n`, Sunday being 0 (1970-01-01 was a Thursday).
pub open spec fn weekday(n: int) -> int {
    (n + 3) % 7
}

/// The first Sunday on or after day `n`.
pub open spec fn sunday_on_or_after(n: int) -> int {
    n + (7 - weekday(n)) % 7
}

/// The second Sunday of March of March year `y`: summer time begins.
pub open spec fn dst_start_day(y: int) -> int {
    sunday_on_or_after(march_first(y)) + 7
}

/// The first Sunday of November of March year `y` (November 1 is 245 days
/// after March 1): summer time ends.
pub open spec fn dst_end_day(y: int) -> int {
    sunday_on_or_after(march_first(y) + 245)
}

/// Summer time is in force at `a` ms since 0000-03-01 UTC: from 10:00 UTC
/// (02:00 PST) on the start day to 09:00 UTC (02:00 PDT) on the end day.
pub open spec fn summer_time_at(a: int) -> bool {
    let y = march_year_of(a / DAY_MS as int);
    dst_start_day(y) * DAY_MS + 10 * HOUR_MS <= a < dst_end_day(y) * DAY_MS + 9 * HOUR_MS
}

/// Summer time is in force at local midnight opening day `n`: the clocks go
/// forward after the midnight of the start day and back after that of the end day.
pub open spec fn summer_time_at_midnight(n: int) -> bool {
    let y = march_year_of(n);
    dst_start_day(y) < n <= dst_end_day(y)
}

/// Offset of UTC from local time, in ms, at `a` ms since 0000-03-01 UTC.
pub open spec fn utc_offset_at(a: int) -> int {
    if summer_time_at(a) {
        7 * HOUR_MS
    } else {
        8 * HOUR_MS
    }
}

/// The first Pacific midnight after `t` (ms since the Unix epoch), in ms since the
/// Unix epoch: the local day of `t` is found by the offset in force at `t`, and
/// the midnight that opens the next local day is turned back into UTC by the
/// offset in force at that midnight.
pub open spec fn next_pacific_midnight(t: int) -> int {
    let shift = UNIX_EPOCH_DAY * DAY_MS;
    let a = t + shift;
    let n = (a - utc_offset_at(a)) / DAY_MS as int + 1;
    let off = if summer_time_at_midnight(n) {
        7 * HOUR_MS
    } else {
        8 * HOUR_MS
    };
    n * DAY_MS + off - shift
}

/// The next Pacific midnight after `t`, held to `i64::MAX` where it lies beyond.
pub open spec fn next_pacific_midnight_capped(t: int) -> int {
    let m = next_pacific_midnight(t);
    if m > i64::MAX {
        i64::MAX as int
    } else {
        m
    }
}

/// The next Pacific midnight lies after `t`, and at most 25 hours after it (a
/// local day lasts 23, 24 or 25 hours).
pub proof fn lemma_next_midnight_within_a_day(t: int)
    requires
        0 <= t,
    ensures
        t < next_pacific_midnight(t) <= t + 25 * HOUR_MS,
{
    let shift = UNIX_EPOCH_DAY * DAY_MS;
    let a = t + shift;
    let off = utc_offset_at(a);
    let n = (a - off) / DAY_MS as int + 1;
    if !summer_time_at(a) && summer_time_at_midnight(n) && n * DAY_MS - (a - off) <= HOUR_MS {
        assert(a / DAY_MS as int == n);
        assert(summer_time_at(a));
    }
}

/// A March year is at least 365 days long.
proof fn lemma_march_year_length(y: int)
    requires
        0 <= y,
    ensures
        march_first(y) + 365 <= march_first(y + 1) <= march_first(y) + 366,
{
}

/// `march_first` grows with the year.
proof fn lemma_march_first_mono(a: int, b: int)
    requires
        0 <= a <= b,
    ensures
        march_first(a) + 365 * (b - a) <= march_first(b),
    decreases b - a,
{
    if a < b {
        lemma_march_first_mono(a, b - 1);
        lemma_march_year_length(b - 1);
    }
}

/// Each day lies in one March year only.
proof fn lemma_march_year_unique(n: int, y: int)
    requires
        is_march_year(n, y),
    ensures
        march_year_of(n) == y,
{
    let z = march_year_of(n);
    assert(is_march_year(n, z));
    if z < y {
        lemma_march_first_mono(z + 1, y);
    } else if y < z {
        lemma_march_first_mono(y + 1, z);
    }
}

/// Day number of March 1 of year `y`.
fn march_first_exec(y: u64) -> (r: u64)
    requires
        y <= 300_000_000,
    ensures
        r == march_first(y as int),
{
    365 * y + y / 4 - y / 100 + y / 400
}

/// The March year holding day `n`.
fn march_year(n: u64) -> (y: u64)
    requires
        n <= 108_000_000_000,
    ensures
        y <= n / 365,
        march_first(y as int) <= n,
        is_march_year(n as int, y as int),
        march_year_of(n as int) == y,
{
    let mut y: u64 = n / 366;
    assert(march_first(y as int) <= n) by {
        assert(march_first(y as int) <= 366 * y);
    }
    while march_first_exec(y + 1) <= n
        invariant
            y <= n / 365,
            n <= 108_000_000_000,
            march_first(y as int) <= n,
        decreases n - march_first(y as int),
    {
        proof {
            lemma_march_year_length(y as int);
            lemma_march_year_length(y as int + 1);
        }
        y = y + 1;
        assert(y <= n / 365) by {
            lemma_march_first_mono(0, y as int);
        }
    }
    proof {
        lemma_march_year_unique(n as int, y as int);
    }
    y
}

/// The first Sunday on or after day `n`.
fn sunday_on_or_after_exec(n: u64) -> (r: u64)
    requires
        n <= 110_000_000_000,
    ensures
        r == sunday_on_or_after(n as int),
{
    n + (7 - (n + 3) % 7) % 7
}

/// Whether summer time is in force at `a` ms since 0000-03-01 UTC.
fn summer_time_exec(a: u64) -> (r: bool)
    requires
        a <= 9_300_000_000_000_000_000,
    ensures
        r == summer_time_at(a as int),
{
    let y = march_year(a / DAY_MS);
    let m = march_first_exec(y);
    let start = sunday_on_or_after_exec(m) + 7;
    let end = sunday_on_or_after_exec(m + 245);
    start * DAY_MS + 10 * HOUR_MS <= a && a < end * DAY_MS + 9 * HOUR_MS
}

/// The first midnight in America/Los_Angeles after `now_ms` (ms since the Unix
/// epoch), in ms since the Unix epoch; `i64::MAX` where that midnight lies
/// beyond it.
pub fn next_pacific_midnight_ms(now_ms: i64) -> (r: i64)
    requires
        0 <= now_ms,
    ensures
        r == next_pacific_midnight_capped(now_ms as int),
{
    let shift: u64 = UNIX_EPOCH_DAY * DAY_MS;
    let a: u64 = now_ms as u64 + shift;
    let off: u64 = if summer_time_exec(a) {
        7 * HOUR_MS
    } else {
        8 * HOUR_MS
    };
    let n: u64 = (a - off) / DAY_MS + 1;
    let y = march_year(n);
    let m = march_first_exec(y);
    let start = sunday_on_or_after_exec(m) + 7;
    let end = sunday_on_or_after_exec(m + 245);
    let off_midnight: u64 = if start < n && n <= end {
        7 * HOUR_MS
    } else {
        8 * HOUR_MS
    };
    let m: u64 = n * DAY_MS + off_midnight - shift;
    if m > 0x7fff_ffff_ffff_ffff {
        i64::MAX
    } else {
        m as i64
    }
}

} // verus!
