use vstd::arithmetic::div_mod::lemma_fundamental_div_mod;
use vstd::arithmetic::div_mod::lemma_fundamental_div_mod_converse;
use vstd::prelude::*;

verus! {

/// Number of leap years among the years `1..=n` of the proleptic Gregorian
/// calendar (extended to all integers by the same floor formula).
pub open spec fn leap_years_through(n: int) -> int {
    n / 4 - n / 100 + n / 400
}

/// The Gregorian leap-year rule.
pub open spec fn is_leap_year(y: int) -> bool {
    y % 4 == 0 && (y % 100 != 0 || y % 400 == 0)
}

/// Days in the months before month `m` of a common year.
pub open spec fn days_before_month(m: int) -> int {
    if m == 1 { 0 }
    else if m == 2 { 31 }
    else if m == 3 { 59 }
    else if m == 4 { 90 }
    else if m == 5 { 120 }
    else if m == 6 { 151 }
    else if m == 7 { 181 }
    else if m == 8 { 212 }
    else if m == 9 { 243 }
    else if m == 10 { 273 }
    else if m == 11 { 304 }
    else { 334 }
}

/// Days from 1970-01-01 to January 1st of year `y`.
pub open spec fn days_before_year(y: int) -> int {
    365 * (y - 1970) + leap_years_through(y - 1) - leap_years_through(1969)
}

/// Days in month `m` of year `y`.
pub open spec fn month_length(y: int, m: int) -> int {
    if m == 2 {
        if is_leap_year(y) { 29 } else { 28 }
    } else if m == 4 || m == 6 || m == 9 || m == 11 {
        30
    } else {
        31
    }
}

/// Day number of `y-m-d` counted from 1970-01-01 (day 0).
pub open spec fn civil_day_number(y: int, m: int, d: int) -> int {
    days_before_year(y) + days_before_month(m) + (if m > 2 && is_leap_year(y) { 1int } else { 0 })
        + d - 1
}

/// What `days_from_civil` answers: `None` for a month outside `1..=12` or a
/// day that the month does not have, the day number otherwise.
pub open spec fn spec_days_from_civil(y: int, m: int, d: int) -> Option<int> {
    if 1 <= m <= 12 && 1 <= d <= month_length(y, m) {
        Some(civil_day_number(y, m, d))
    } else {
        None
    }
}

/// The year the computation counts from: years start in March.
pub open spec fn march_year(y: int, m: int) -> int {
    if m <= 2 { y - 1 } else { y }
}

/// Day of the 400-year era (which starts on March 1st) of `y-m-d`.
pub open spec fn era_day(y: int, m: int, d: int) -> int {
    let yy = march_year(y, m);
    let yoe = yy - (yy / 400) * 400;
    let mp = if m > 2 { m - 3 } else { m + 9 };
    yoe * 365 + yoe / 4 - yoe / 100 + (153 * mp + 2) / 5 + d - 1
}

/// The inputs on which every intermediate value of the computation fits in
/// an `i64` (elsewhere the computation overflows).
pub open spec fn civil_in_range(y: int, m: int, d: int) -> bool {
    let yy = march_year(y, m);
    let era = yy / 400;
    (1 <= m <= 12 && 1 <= d <= 31) ==> {
        &&& i64::MIN <= yy
        &&& yy < 0 ==> i64::MIN <= yy - 399
        &&& i64::MIN <= era * 146_097 <= i64::MAX
        &&& era * 146_097 + era_day(y, m, d) <= i64::MAX
        &&& i64::MIN <= era * 146_097 + era_day(y, m, d) - 719_468
    }
}

proof fn lemma_div_shift(a: int, r: int, k: int)
    requires
        k > 0,
        0 <= r,
    ensures
        (a * k + r) / k == a + r / k,
        (a * k + r) % k == r % k,
{
    lemma_fundamental_div_mod(r, k);
    assert(a * k + r == (a + r / k) * k + r % k) by (nonlinear_arith)
        requires
            r == k * (r / k) + r % k,
    ;
    lemma_fundamental_div_mod_converse(a * k + r, k, a + r / k, r % k);
}

proof fn lemma_div_step(y: int, k: int)
    requires
        k > 0,
    ensures
        y / k - (y - 1) / k == (if y % k == 0 { 1int } else { 0 }),
{
    let q = (y - 1) / k;
    let r = (y - 1) % k;
    lemma_fundamental_div_mod(y - 1, k);
    if r == k - 1 {
        assert(y == (q + 1) * k + 0) by (nonlinear_arith)
            requires
                y - 1 == k * q + r,
                r == k - 1,
        ;
        lemma_fundamental_div_mod_converse(y, k, q + 1, 0);
    } else {
        assert(y == q * k + (r + 1)) by (nonlinear_arith)
            requires
                y - 1 == k * q + r,
        ;
        lemma_fundamental_div_mod_converse(y, k, q, r + 1);
    }
}

proof fn lemma_multiple_of(y: int, big: int, small: int, f: int)
    requires
        small > 0,
        big > 0,
        big == small * f,
        f > 0,
        y % big == 0,
    ensures
        y % small == 0,
{
    lemma_fundamental_div_mod(y, big);
    let q = y / big;
    assert(y == (q * f) * small + 0) by (nonlinear_arith)
        requires
            y == big * q + y % big,
            y % big == 0,
            big == small * f,
    ;
    lemma_fundamental_div_mod_converse(y, small, q * f, 0);
}

/// Each year adds one to the leap-year count exactly when it is a leap year.
pub proof fn lemma_leap_years_step(y: int)
    ensures
        leap_years_through(y) - leap_years_through(y - 1) == (if is_leap_year(y) { 1int } else { 0 }),
{
    lemma_div_step(y, 4);
    lemma_div_step(y, 100);
    lemma_div_step(y, 400);
    if y % 400 == 0 {
        lemma_multiple_of(y, 400, 100, 4);
    }
    if y % 100 == 0 {
        lemma_multiple_of(y, 100, 4, 25);
    }
}

/// Splitting a year into its 400-year era and the year of that era.
proof fn lemma_leaps_by_era(yy: int)
    ensures
        ({
            let era = yy / 400;
            let yoe = yy - era * 400;
            &&& 0 <= yoe < 400
            &&& leap_years_through(yy) == 97 * era + yoe / 4 - yoe / 100
        }),
{
    let era = yy / 400;
    let yoe = yy - era * 400;
    lemma_fundamental_div_mod(yy, 400);
    assert(yoe == yy % 400) by (nonlinear_arith)
        requires
            yy == 400 * era + yy % 400,
            yoe == yy - era * 400,
    ;
    lemma_div_shift(100 * era, yoe, 4);
    lemma_div_shift(4 * era, yoe, 100);
    lemma_div_shift(era, yoe, 400);
    assert(yy == (100 * era) * 4 + yoe) by (nonlinear_arith)
        requires
            yoe == yy - era * 400,
    ;
    assert(yy == (4 * era) * 100 + yoe) by (nonlinear_arith)
        requires
            yoe == yy - era * 400,
    ;
    assert(yy == era * 400 + yoe);
    assert(yoe / 400 == 0);
}

/// The era-based day count equals the Gregorian day number.
pub proof fn lemma_era_count_is_civil(y: int, m: int, d: int)
    requires
        1 <= m <= 12,
    ensures
        (march_year(y, m) / 400) * 146_097 + era_day(y, m, d) - 719_468 == civil_day_number(y, m, d),
{
    let yy = march_year(y, m);
    let era = yy / 400;
    let yoe = yy - era * 400;
    lemma_leaps_by_era(yy);
    assert(era * 146_097 + yoe * 365 + yoe / 4 - yoe / 100 == 365 * yy + leap_years_through(yy))
        by (nonlinear_arith)
        requires
            yoe == yy - era * 400,
            leap_years_through(yy) == 97 * era + yoe / 4 - yoe / 100,
    ;
    assert(leap_years_through(1969) == 477);
    if m > 2 {
        lemma_leap_years_step(y);
    }
}

/// Whether `year` is a leap year.
fn leap_year(year: i64) -> (r: bool)
    ensures
        r == is_leap_year(year as int),
{
    let magnitude: u64 = if year < 0 {
        ((-(year + 1)) as u64) + 1
    } else {
        year as u64
    };
    proof {
        lemma_divisible_either_sign(year as int, 4);
        lemma_divisible_either_sign(year as int, 100);
        lemma_divisible_either_sign(year as int, 400);
    }
    magnitude % 4 == 0 && (magnitude % 100 != 0 || magnitude % 400 == 0)
}

proof fn lemma_divisible_either_sign(y: int, k: int)
    requires
        k > 0,
    ensures
        (y % k == 0) == ((-y) % k == 0),
{
    lemma_fundamental_div_mod(y, k);
    lemma_fundamental_div_mod(-y, k);
    if y % k == 0 {
        assert(-y == k * (-(y / k)) + 0) by (nonlinear_arith)
            requires
                y == k * (y / k) + 0,
        ;
        lemma_fundamental_div_mod_converse(-y, k, -(y / k), 0);
    }
    if (-y) % k == 0 {
        assert(y == k * (-((-y) / k)) + 0) by (nonlinear_arith)
            requires
                -y == k * ((-y) / k) + 0,
        ;
        lemma_fundamental_div_mod_converse(y, k, -((-y) / k), 0);
    }
}

/// The number of days of `month` (in `1..=12`) in `year`.
fn days_in_month(year: i64, month: i64) -> (r: i64)
    requires
        1 <= month <= 12,
    ensures
        r == month_length(year as int, month as int),
{
    if month == 2 {
        if leap_year(year) { 29 } else { 28 }
    } else if month == 4 || month == 6 || month == 9 || month == 11 {
        30
    } else {
        31
    }
}

/// Howard Hinnant's `days_from_civil`: days since 1970-01-01 in the proleptic
/// Gregorian calendar. Returns `None` for out-of-range months or days.
pub fn days_from_civil(year: i64, month: i64, day: i64) -> (r: Option<i64>)
    requires
        civil_in_range(year as int, month as int, day as int),
    ensures
        r matches Some(v) ==> spec_days_from_civil(year as int, month as int, day as int) == Some(v as int),
        r is None ==> spec_days_from_civil(year as int, month as int, day as int) is None,
        1 <= month <= 12 && 1 <= day <= month_length(year as int, month as int) ==> (r matches Some(v)
            && v == civil_day_number(year as int, month as int, day as int)),
{
    if !(1 <= month && month <= 12) || !(1 <= day && day <= days_in_month(year, month)) {
        return None;
    }
    proof {
        lemma_era_count_is_civil(year as int, month as int, day as int);
    }
    let y = if month <= 2 { year - 1 } else { year };
    let era = (if y >= 0 { y } else { y - 399 }) / 400;
    assert(era == y / 400);
    let year_of_era = y - era * 400;
    assert(0 <= year_of_era < 400) by {
        lemma_fundamental_div_mod(y as int, 400);
    }
    let month_prime = if month > 2 { month - 3 } else { month + 9 };
    let day_of_year = (153 * month_prime + 2) / 5 + day - 1;
    let day_of_era = year_of_era * 365 + year_of_era / 4 - year_of_era / 100 + day_of_year;
    assert(day_of_era == era_day(year as int, month as int, day as int));
    Some(era * 146_097 + day_of_era - 719_468)
}

} // verus!
