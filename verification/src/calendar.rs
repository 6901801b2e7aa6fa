//! The proleptic Gregorian calendar, counted in days from 1970-01-01: which
//! civil date and time of day a count of Unix seconds names.

use vstd::prelude::*;

verus! {

/// Seconds in a day.
pub const SECS_PER_DAY: u64 = 86_400;

/// Days in a full cycle of the Gregorian calendar, which repeats every
/// 400 years.
pub const DAYS_PER_CYCLE: u64 = 146_097;

/// A leap year: divisible by 4, and not by 100 unless by 400.
pub open spec fn is_leap(y: int) -> bool {
    (y % 4 == 0 && y % 100 != 0) || y % 400 == 0
}

/// Days in year `y`.
pub open spec fn year_len(y: int) -> int {
    if is_leap(y) {
        366
    } else {
        365
    }
}

/// The leap years among `1..=y`, for `y >= 0`.
pub open spec fn leaps_through(y: int) -> int {
    y / 4 - y / 100 + y / 400
}

/// Days from 1970-01-01 to the first of January of year `y`.
pub open spec fn days_before_year(y: int) -> int {
    365 * (y - 1970) + leaps_through(y - 1) - leaps_through(1969)
}

/// Days in month `m` (1 is January) of year `y`.
pub open spec fn month_len(y: int, m: int) -> int {
    if m == 2 {
        if is_leap(y) {
            29
        } else {
            28
        }
    } else if m == 4 || m == 6 || m == 9 || m == 11 {
        30
    } else {
        31
    }
}

/// Days from the first of January to the first of month `m` of year `y`.
pub open spec fn days_before_month(y: int, m: int) -> int
    decreases m,
{
    if m <= 1 {
        0
    } else {
        days_before_month(y, m - 1) + month_len(y, m - 1)
    }
}

/// Whether `(y, m, d)` is a date of the calendar.
pub open spec fn is_date(y: int, m: int, d: int) -> bool {
    1 <= m <= 12 && 1 <= d <= month_len(y, m)
}

/// Days from 1970-01-01 to the date `(y, m, d)`.
pub open spec fn day_number(y: int, m: int, d: int) -> int {
    days_before_year(y) + days_before_month(y, m) + d - 1
}

/// `(y, m, d)` is the date `days` days after 1970-01-01.
pub open spec fn names_date(days: int, y: int, m: int, d: int) -> bool {
    y >= 1970 && is_date(y, m, d) && day_number(y, m, d) == days
}

/// Each year adds its own length.
proof fn lemma_next_year(y: int)
    requires
        y >= 1,
    ensures
        days_before_year(y + 1) == days_before_year(y) + year_len(y),
{
    assert(y / 4 - (y - 1) / 4 == if y % 4 == 0 { 1int } else { 0int }) by (nonlinear_arith)
        requires
            y >= 1,
    ;
    assert(y / 100 - (y - 1) / 100 == if y % 100 == 0 { 1int } else { 0int }) by (nonlinear_arith)
        requires
            y >= 1,
    ;
    assert(y / 400 - (y - 1) / 400 == if y % 400 == 0 { 1int } else { 0int }) by (nonlinear_arith)
        requires
            y >= 1,
    ;
    assert(y % 400 == 0 ==> y % 100 == 0 && y % 4 == 0) by (nonlinear_arith);
    assert(y % 100 == 0 ==> y % 4 == 0) by (nonlinear_arith);
}

/// Four hundred years hold 97 leap years.
proof fn lemma_cycle(y: int)
    requires
        y >= 1970,
    ensures
        days_before_year(y + 400) == days_before_year(y) + DAYS_PER_CYCLE,
{
    let x = y - 1;
    assert((x + 400) / 4 == x / 4 + 100) by (nonlinear_arith);
    assert((x + 400) / 100 == x / 100 + 4) by (nonlinear_arith);
    assert((x + 400) / 400 == x / 400 + 1) by (nonlinear_arith);
}

/// The months of a year add up to the year.
proof fn lemma_months_fill_year(y: int)
    ensures
        days_before_month(y, 13) == year_len(y),
{
    reveal_with_fuel(days_before_month, 13);
}

/// Later years start later: each year ends no later than any later one
/// starts.
proof fn lemma_years_ordered(y1: int, y2: int)
    requires
        1970 <= y1 < y2,
    ensures
        days_before_year(y1) + year_len(y1) <= days_before_year(y2),
    decreases y2 - y1,
{
    lemma_next_year(y1);
    if y1 + 1 < y2 {
        lemma_years_ordered(y1 + 1, y2);
    }
}

/// Later months start no earlier.
proof fn lemma_months_ordered(y: int, m1: int, m2: int)
    requires
        1 <= m1 <= m2,
    ensures
        days_before_month(y, m1) <= days_before_month(y, m2),
    decreases m2 - m1,
{
    if m1 < m2 {
        lemma_months_ordered(y, m1, m2 - 1);
    }
}

/// A date lies within its year, and within its month.
proof fn lemma_date_bounds(y: int, m: int, d: int)
    requires
        is_date(y, m, d),
    ensures
        days_before_year(y) <= day_number(y, m, d) < days_before_year(y) + year_len(y),
        days_before_month(y, m) <= day_number(y, m, d) - days_before_year(y) < days_before_month(
            y,
            m + 1,
        ),
{
    lemma_months_ordered(y, 1, m);
    lemma_months_ordered(y, m + 1, 13);
    lemma_months_fill_year(y);
}

/// A day count names one date at most.
pub proof fn lemma_one_date_per_day(n: int, y1: int, m1: int, d1: int, y2: int, m2: int, d2: int)
    requires
        names_date(n, y1, m1, d1),
        names_date(n, y2, m2, d2),
    ensures
        y1 == y2 && m1 == m2 && d1 == d2,
{
    lemma_date_bounds(y1, m1, d1);
    lemma_date_bounds(y2, m2, d2);
    if y1 < y2 {
        lemma_years_ordered(y1, y2);
    } else if y2 < y1 {
        lemma_years_ordered(y2, y1);
    } else if m1 < m2 {
        lemma_months_ordered(y1, m1 + 1, m2);
    } else if m2 < m1 {
        lemma_months_ordered(y1, m2 + 1, m1);
    }
}

/// The date `days` days after 1970-01-01, for `days >= 0`.
pub open spec fn civil_date(days: int) -> (int, int, int) {
    choose|t: (int, int, int)| names_date(days, t.0, t.1, t.2)
}

/// Whole cycles from 1970.
proof fn lemma_cycles(q: nat)
    ensures
        days_before_year(1970 + 400 * q as int) == DAYS_PER_CYCLE * q,
    decreases q,
{
    if q > 0 {
        lemma_cycles((q - 1) as nat);
        lemma_cycle(1970 + 400 * (q - 1));
        assert(1970 + 400 * (q - 1) + 400 == 1970 + 400 * q);
        assert(DAYS_PER_CYCLE * (q - 1) + DAYS_PER_CYCLE == DAYS_PER_CYCLE * q) by (nonlinear_arith);
    }
}

/// Whether year `y` is a leap year.
pub fn leap_year(y: u64) -> (r: bool)
    ensures
        r == is_leap(y as int),
{
    (y % 4 == 0 && y % 100 != 0) || y % 400 == 0
}

/// Days in month `m` of year `y`.
pub fn days_in_month(y: u64, m: u32) -> (r: u64)
    ensures
        r == month_len(y as int, m as int),
{
    if m == 2 {
        if leap_year(y) {
            29
        } else {
            28
        }
    } else if m == 4 || m == 6 || m == 9 || m == 11 {
        30
    } else {
        31
    }
}

/// The civil date `days` days after 1970-01-01: year, month (1 is
/// January) and day of the month (from 1).
pub fn civil_from_days(days: u64) -> (r: (u64, u32, u32))
    ensures
        names_date(days as int, r.0 as int, r.1 as int, r.2 as int),
        (r.0 as int, r.1 as int, r.2 as int) == civil_date(days as int),
{
    let q = days / DAYS_PER_CYCLE;
    let rem0 = days % DAYS_PER_CYCLE;
    assert(400 * q <= 400 * (u64::MAX / DAYS_PER_CYCLE)) by (nonlinear_arith)
        requires
            q == days / DAYS_PER_CYCLE,
    ;
    let base = 1970 + 400 * q;
    proof {
        lemma_cycles(q as nat);
        assert(days == DAYS_PER_CYCLE * q + rem0) by (nonlinear_arith)
            requires
                q == days / DAYS_PER_CYCLE,
                rem0 == days % DAYS_PER_CYCLE,
        ;
    }
    // Whole years.
    let mut y = base;
    let mut rem = rem0;
    loop
        invariant_except_break
            base <= y <= base + 400,
            base == 1970 + 400 * q,
            base <= 1970 + 400 * (u64::MAX / DAYS_PER_CYCLE),
            days_before_year(y as int) + rem == days,
            365 * (y - base) + rem <= rem0,
            rem0 < DAYS_PER_CYCLE,
        ensures
            y >= 1970,
            days_before_year(y as int) + rem == days,
            rem < year_len(y as int),
        decreases rem,
    {
        let len: u64 = if leap_year(y) {
            366
        } else {
            365
        };
        if rem < len {
            break;
        }
        proof {
            lemma_next_year(y as int);
        }
        rem = rem - len;
        y = y + 1;
    }
    // Whole months.
    let mut m: u32 = 1;
    proof {
        lemma_months_fill_year(y as int);
    }
    loop
        invariant_except_break
            1 <= m <= 12,
            days_before_month(y as int, m as int) + rem < year_len(y as int),
            days_before_year(y as int) + days_before_month(y as int, m as int) + rem == days,
            days_before_month(y as int, 13) == year_len(y as int),
        ensures
            1 <= m <= 12,
            rem < month_len(y as int, m as int),
            days_before_year(y as int) + days_before_month(y as int, m as int) + rem == days,
        decreases 12 - m,
    {
        let len = days_in_month(y, m);
        if rem < len {
            break;
        }
        if m == 12 {
            assert(days_before_month(y as int, 13) == days_before_month(y as int, 12) + month_len(
                y as int,
                12,
            ));
            assert(false);
        }
        rem = rem - len;
        m = m + 1;
    }
    let d = (rem + 1) as u32;
    proof {
        let w = (y as int, m as int, d as int);
        assert(names_date(days as int, w.0, w.1, w.2));
        let c = civil_date(days as int);
        lemma_one_date_per_day(days as int, y as int, m as int, d as int, c.0, c.1, c.2);
    }
    (y, m, d)
}

/// The civil date and time in UTC of `secs` seconds after the Unix epoch:
/// year, month, day, hour, minute and second. The year is reported as an
/// `i32`, wrapping past `i32::MAX` as a cast does.
pub fn unix_to_civil(secs: u64) -> (r: (i32, u32, u32, u32, u32, u32))
    ensures
        r.0 == (#[verifier::truncate] (civil_date(secs as int / (SECS_PER_DAY as int)).0 as i32)),
        r.1 == civil_date(secs as int / (SECS_PER_DAY as int)).1,
        r.2 == civil_date(secs as int / (SECS_PER_DAY as int)).2,
        r.3 == (secs as int % (SECS_PER_DAY as int)) / 3600,
        r.4 == (secs as int % (SECS_PER_DAY as int)) / 60 % 60,
        r.5 == secs as int % (SECS_PER_DAY as int) % 60,
{
    let days = secs / SECS_PER_DAY;
    let rem = (secs % SECS_PER_DAY) as u32;
    let (y, m, d) = civil_from_days(days);
    let h = rem / 3_600;
    let mi = (rem / 60) % 60;
    let s = rem % 60;
    let year = #[verifier::truncate] (y as i32);
    let r = (year, m, d, h, mi, s);
    proof {
        assert(year == #[verifier::truncate] ((y as int) as i32));
    }
    r
}

} // verus!
