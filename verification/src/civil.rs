//! Civil (proleptic Gregorian) wall-clock time from Unix seconds.

use vstd::prelude::*;

verus! {

/// A civil date and time of day.
#[derive(Clone, Copy, Debug, PartialEq, Eq, Structural)]
pub struct WallClock {
    pub year: i64,
    pub month: u8,
    pub day: u8,
    pub hour: u8,
    pub minute: u8,
    pub second: u8,
}

/// Gregorian leap years: every fourth year, except centuries not divisible
/// by 400.
pub open spec fn is_leap(y: int) -> bool {
    y % 4 == 0 && (y % 100 != 0 || y % 400 == 0)
}

pub open spec fn days_in_year(y: int) -> int {
    if is_leap(y) {
        366
    } else {
        365
    }
}

pub open spec fn days_in_month(y: int, m: int) -> int {
    if m == 2 {
        if is_leap(y) {
            29
        } else {
            28
        }
    } else if m == 4 || m == 6 || m == 9 || m == 11 {
        30
    } else {
        31
    }
}

/// Leap years before year `y`, counted from an arbitrary origin.
pub open spec fn leaps_before(y: int) -> int {
    (y - 1) / 4 - (y - 1) / 100 + (y - 1) / 400
}

/// Days from 1970-01-01 to January 1st of year `y` (negative before 1970).
pub open spec fn days_before_year(y: int) -> int {
    365 * (y - 1970) + leaps_before(y) - leaps_before(1970)
}

/// Days in the months of year `y` before month `m`.
pub open spec fn days_before_month(y: int, m: int) -> int
    decreases m,
{
    if m <= 1 {
        0
    } else {
        days_before_month(y, m - 1) + days_in_month(y, m - 1)
    }
}

/// Days from 1970-01-01 to the given date.
pub open spec fn days_from_civil(y: int, m: int, d: int) -> int {
    days_before_year(y) + days_before_month(y, m) + d - 1
}

/// A real calendar date.
pub open spec fn valid_date(y: int, m: int, d: int) -> bool {
    1 <= m <= 12 && 1 <= d <= days_in_month(y, m)
}

/// `c` is the civil time `t` seconds after the Unix epoch.
pub open spec fn civil_of(c: WallClock, t: int) -> bool {
    &&& valid_date(c.year as int, c.month as int, c.day as int)
    &&& c.hour < 24
    &&& c.minute < 60
    &&& c.second < 60
    &&& days_from_civil(c.year as int, c.month as int, c.day as int) * 86400 + c.hour * 3600
        + c.minute * 60 + c.second == t
}

proof fn lemma_leaps_shift(y: int, k: int)
    requires
        k >= 0,
    ensures
        leaps_before(y + 400 * k) == leaps_before(y) + 97 * k,
{
    let x = y - 1;
    assert((x + 400 * k) / 4 == x / 4 + 100 * k) by (nonlinear_arith)
        requires
            k >= 0,
    ;
    assert((x + 400 * k) / 100 == x / 100 + 4 * k) by (nonlinear_arith)
        requires
            k >= 0,
    ;
    assert((x + 400 * k) / 400 == x / 400 + k) by (nonlinear_arith)
        requires
            k >= 0,
    ;
}

/// Four hundred years always hold 146097 days.
proof fn lemma_year_cycle(y: int, k: int)
    requires
        k >= 0,
    ensures
        days_before_year(y + 400 * k) == days_before_year(y) + 146097 * k,
        is_leap(y + 400 * k) == is_leap(y),
{
    lemma_leaps_shift(y, k);
    assert((y + 400 * k) % 4 == y % 4) by (nonlinear_arith)
        requires
            k >= 0,
    ;
    assert((y + 400 * k) % 100 == y % 100) by (nonlinear_arith)
        requires
            k >= 0,
    ;
    assert((y + 400 * k) % 400 == y % 400) by (nonlinear_arith)
        requires
            k >= 0,
    ;
}

proof fn lemma_next_year(y: int)
    ensures
        days_before_year(y + 1) == days_before_year(y) + days_in_year(y),
{
    assert((y / 4) - ((y - 1) / 4) == (if y % 4 == 0 { 1int } else { 0int })) by (nonlinear_arith);
    assert((y / 100) - ((y - 1) / 100) == (if y % 100 == 0 { 1int } else { 0int })) by (nonlinear_arith);
    assert((y / 400) - ((y - 1) / 400) == (if y % 400 == 0 { 1int } else { 0int })) by (nonlinear_arith);
    assert(y % 400 == 0 ==> y % 100 == 0) by (nonlinear_arith);
    assert(y % 100 == 0 ==> y % 4 == 0) by (nonlinear_arith);
}

proof fn lemma_months_of_year(y: int)
    ensures
        days_before_month(y, 13) == days_in_year(y),
{
    reveal_with_fuel(days_before_month, 13);
}

proof fn lemma_month_days_positive(y: int, m: int)
    ensures
        28 <= days_in_month(y, m) <= 31,
{
}

proof fn lemma_years_increase(a: int, b: int)
    requires
        a <= b,
    ensures
        days_before_year(a) <= days_before_year(b),
        a < b ==> days_before_year(a) + 365 <= days_before_year(b),
    decreases b - a,
{
    if a < b {
        lemma_next_year(b - 1);
        lemma_years_increase(a, b - 1);
    }
}

proof fn lemma_months_increase(y: int, a: int, b: int)
    requires
        1 <= a <= b,
    ensures
        days_before_month(y, a) <= days_before_month(y, b),
        a < b ==> days_before_month(y, a) + days_in_month(y, a) <= days_before_month(y, b),
    decreases b - a,
{
    if a < b {
        lemma_months_increase(y, a, b - 1);
        lemma_month_days_positive(y, b - 1);
    }
}

/// A valid date's day count falls inside its year.
proof fn lemma_date_in_year(y: int, m: int, d: int)
    requires
        valid_date(y, m, d),
    ensures
        days_before_year(y) <= days_from_civil(y, m, d) < days_before_year(y + 1),
{
    lemma_months_increase(y, m, 13);
    lemma_months_of_year(y);
    lemma_next_year(y);
    lemma_months_increase(y, 1, m);
}

/// Distinct valid dates have distinct day counts.
proof fn lemma_dates_are_distinct(y1: int, m1: int, d1: int, y2: int, m2: int, d2: int)
    requires
        valid_date(y1, m1, d1),
        valid_date(y2, m2, d2),
        days_from_civil(y1, m1, d1) == days_from_civil(y2, m2, d2),
    ensures
        y1 == y2 && m1 == m2 && d1 == d2,
{
    lemma_date_in_year(y1, m1, d1);
    lemma_date_in_year(y2, m2, d2);
    if y1 < y2 {
        lemma_years_increase(y1 + 1, y2);
    } else if y2 < y1 {
        lemma_years_increase(y2 + 1, y1);
    }
    if m1 < m2 {
        lemma_months_increase(y1, m1, m2);
    } else if m2 < m1 {
        lemma_months_increase(y1, m2, m1);
    }
}

/// Each instant has exactly one civil time.
pub proof fn lemma_civil_time_is_unique(c1: WallClock, c2: WallClock, t: int)
    requires
        civil_of(c1, t),
        civil_of(c2, t),
    ensures
        c1 == c2,
{
    let s1 = c1.hour * 3600 + c1.minute * 60 + c1.second;
    let s2 = c2.hour * 3600 + c2.minute * 60 + c2.second;
    let d1 = days_from_civil(c1.year as int, c1.month as int, c1.day as int);
    let d2 = days_from_civil(c2.year as int, c2.month as int, c2.day as int);
    assert(d1 == d2 && s1 == s2) by (nonlinear_arith)
        requires
            d1 * 86400 + s1 == d2 * 86400 + s2,
            0 <= s1 < 86400,
            0 <= s2 < 86400,
    ;
    assert(c1.hour == c2.hour && c1.minute == c2.minute && c1.second == c2.second) by (nonlinear_arith)
        requires
            c1.hour * 3600 + c1.minute * 60 + c1.second == c2.hour * 3600 + c2.minute * 60 + c2.second,
            c1.minute < 60,
            c1.second < 60,
            c2.minute < 60,
            c2.second < 60,
    ;
    lemma_dates_are_distinct(
        c1.year as int,
        c1.month as int,
        c1.day as int,
        c2.year as int,
        c2.month as int,
        c2.day as int,
    );
}

/// The civil time `t` seconds after the Unix epoch.
pub open spec fn civil_at(t: int) -> WallClock {
    choose|c: WallClock| civil_of(c, t)
}

/// Civil time `t` seconds after the Unix epoch (negative before it).
pub fn civil_from_unix_secs(t: i64) -> (c: WallClock)
    ensures
        civil_of(c, t as int),
        c == civil_at(t as int),
{
    // Shift by a whole number of 400-year cycles so the count is positive;
    // the calendar repeats every cycle, so only the year needs shifting back.
    let s: u128 = (t as i128 + 9223372042316409600i128) as u128;
    let days: u64 = (s / 86400) as u64;
    let sod: u64 = (s % 86400) as u64;
    let cycles: u64 = days / 146097;
    let mut rest: u64 = days % 146097;
    let mut year: u64 = 1970 + 400 * cycles;
    proof {
        lemma_year_cycle(1970, cycles as int);
    }
    while rest >= year_len(year)
        invariant
            days_before_year(year as int) + rest == days,
            year <= 1970 + 400 * cycles + 146097 - rest,
            rest < 146097,
            cycles <= 3000000000,
        decreases rest,
    {
        let len: u64 = year_len(year);
        proof {
            lemma_next_year(year as int);
        }
        rest = rest - len;
        year = year + 1;
    }
    let ghost in_year = rest;
    let mut month: u64 = 1;
    proof {
        lemma_months_of_year(year as int);
    }
    while rest >= month_len(year, month)
        invariant
            1 <= month <= 12,
            days_before_month(year as int, month as int) + rest == in_year,
            in_year < days_in_year(year as int),
            days_before_month(year as int, 13) == days_in_year(year as int),
        decreases 13 - month,
    {
        let len = month_len(year, month);
        rest = rest - len;
        if month == 12 {
            assert(days_before_month(year as int, 13) == days_before_month(year as int, 12)
                + days_in_month(year as int, 12));
            assert(false);
        }
        month = month + 1;
    }
    proof {
        lemma_month_days_positive(year as int, month as int);
    }
    let y: i64 = (year as i64) - 292277024800i64;
    proof {
        lemma_year_cycle(y as int, 730692562);
        assert(days_in_month(y as int, month as int) == days_in_month(year as int, month as int));
        lemma_same_months(y as int, year as int, month as int);
    }
    let hour: u64 = sod / 3600;
    let minute: u64 = (sod % 3600) / 60;
    let second: u64 = sod % 60;
    assert(sod == hour * 3600 + minute * 60 + second) by (nonlinear_arith)
        requires
            hour == sod / 3600,
            minute == (sod % 3600) / 60,
            second == sod % 60,
    ;
    let c = WallClock {
        year: y,
        month: month as u8,
        day: (rest + 1) as u8,
        hour: hour as u8,
        minute: minute as u8,
        second: second as u8,
    };
    proof {
        assert(civil_of(c, t as int));
        lemma_civil_time_is_unique(c, civil_at(t as int), t as int);
    }
    c
}

proof fn lemma_same_months(a: int, b: int, m: int)
    requires
        is_leap(a) == is_leap(b),
    ensures
        days_before_month(a, m) == days_before_month(b, m),
    decreases m,
{
    if m > 1 {
        lemma_same_months(a, b, m - 1);
    }
}

fn is_leap_u64(y: u64) -> (r: bool)
    ensures
        r == is_leap(y as int),
{
    y % 4 == 0 && (y % 100 != 0 || y % 400 == 0)
}

fn year_len(y: u64) -> (r: u64)
    ensures
        r == days_in_year(y as int),
{
    if is_leap_u64(y) {
        366
    } else {
        365
    }
}

fn month_len(y: u64, m: u64) -> (r: u64)
    ensures
        r == days_in_month(y as int, m as int),
{
    if m == 2 {
        if is_leap_u64(y) {
            29
        } else {
            28
        }
    } else if m == 4 || m == 6 || m == 9 || m == 11 {
        30
    } else {
        31
    }
}

} // verus!
