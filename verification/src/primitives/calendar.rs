//! The Gregorian calendar in UTC.

use super::amounts::CanonicalTime;
use vstd::prelude::*;

verus! {

pub open spec fn leap_year(year: int) -> bool {
    year % 4 == 0 && (year % 100 != 0 || year % 400 == 0)
}

pub open spec fn year_days(year: int) -> int {
    if leap_year(year) {
        366
    } else {
        365
    }
}

pub open spec fn month_days(year: int, month: int) -> int {
    if month == 2 {
        if leap_year(year) {
            29
        } else {
            28
        }
    } else if month == 4 || month == 6 || month == 9 || month == 11 {
        30
    } else {
        31
    }
}

/// Days from the first of January 1970 to the first of January of `year`.
pub open spec fn days_before_year(year: int) -> int
    decreases year,
{
    if year <= 1970 {
        0
    } else {
        days_before_year(year - 1) + year_days(year - 1)
    }
}

/// Days from the first of January to the first of `month`.
pub open spec fn days_before_month(year: int, month: int) -> int
    decreases month,
{
    if month <= 1 {
        0
    } else {
        days_before_month(year, month - 1) + month_days(year, month - 1)
    }
}

/// Whether the calendar has this date, in a supported year.
pub open spec fn valid_date(year: int, month: int, day: int) -> bool {
    &&& 1970 <= year <= 9999
    &&& 1 <= month <= 12
    &&& 1 <= day <= month_days(year, month)
}

/// Midnight at the start of a date.
pub open spec fn date_millis(year: int, month: int, day: int) -> int {
    (days_before_year(year) + days_before_month(year, month) + day - 1) * 86_400_000
}

/// The time of a date: what `calendar_date` gives.
pub open spec fn date_time(year: int, month: int, day: int) -> Option<CanonicalTime> {
    if valid_date(year, month, day) {
        Some(CanonicalTime(date_millis(year, month, day) as u64))
    } else {
        None
    }
}

proof fn lemma_year_bound(year: int)
    requires
        1970 <= year,
    ensures
        365 * (year - 1970) <= days_before_year(year) <= 366 * (year - 1970),
    decreases year,
{
    if year > 1970 {
        lemma_year_bound(year - 1);
    }
}

proof fn lemma_month_bound(year: int, month: int)
    requires
        1 <= month <= 13,
    ensures
        0 <= days_before_month(year, month) <= 31 * (month - 1),
    decreases month,
{
    if month > 1 {
        lemma_month_bound(year, month - 1);
    }
}

/// The twelve months of a year make up its days.
pub proof fn months_fill_the_year(year: int)
    ensures
        days_before_month(year, 13) == year_days(year),
{
    reveal_with_fuel(days_before_month, 14);
}

proof fn lemma_month_monotonic(year: int, a: int, b: int)
    requires
        1 <= a <= b,
    ensures
        days_before_month(year, a) <= days_before_month(year, b),
    decreases b - a,
{
    if a < b {
        lemma_month_monotonic(year, a, b - 1);
    }
}

proof fn lemma_year_monotonic(a: int, b: int)
    requires
        1970 <= a <= b,
    ensures
        days_before_year(a) <= days_before_year(b),
    decreases b - a,
{
    if a < b {
        lemma_year_monotonic(a, b - 1);
    }
}

/// Every date of a supported year has a time that fits, a whole number of days.
pub proof fn dates_fit(year: int, month: int, day: int)
    requires
        valid_date(year, month, day),
    ensures
        0 <= date_millis(year, month, day) <= u64::MAX,
        date_millis(year, month, day) % 86_400_000 == 0,
{
    lemma_year_bound(year);
    lemma_month_bound(year, month);
}

/// Times of dates come in the order of the dates.
pub proof fn dates_are_ordered(y1: int, m1: int, d1: int, y2: int, m2: int, d2: int)
    requires
        valid_date(y1, m1, d1),
        valid_date(y2, m2, d2),
        y1 < y2 || (y1 == y2 && (m1 < m2 || (m1 == m2 && d1 < d2))),
    ensures
        date_millis(y1, m1, d1) < date_millis(y2, m2, d2),
{
    lemma_month_bound(y2, m2);
    if y1 < y2 {
        months_fill_the_year(y1);
        lemma_month_monotonic(y1, m1 + 1, 13);
        lemma_year_monotonic(y1 + 1, y2);
    } else if m1 < m2 {
        lemma_month_monotonic(y1, m1 + 1, m2);
    }
}

/// Two dates have one time only if they are the same date.
pub proof fn dates_are_distinct(y1: int, m1: int, d1: int, y2: int, m2: int, d2: int)
    requires
        valid_date(y1, m1, d1),
        valid_date(y2, m2, d2),
        date_millis(y1, m1, d1) == date_millis(y2, m2, d2),
    ensures
        y1 == y2 && m1 == m2 && d1 == d2,
{
    if y1 != y2 || m1 != m2 || d1 != d2 {
        if y1 < y2 || (y1 == y2 && (m1 < m2 || (m1 == m2 && d1 < d2))) {
            dates_are_ordered(y1, m1, d1, y2, m2, d2);
        } else {
            dates_are_ordered(y2, m2, d2, y1, m1, d1);
        }
    }
}

fn is_leap(year: u16) -> (leap: bool)
    ensures
        leap == leap_year(year as int),
{
    year % 4 == 0 && (year % 100 != 0 || year % 400 == 0)
}

fn days_in_month(year: u16, month: u8) -> (days: u64)
    ensures
        days as int == month_days(year as int, month as int),
{
    if month == 2 {
        if is_leap(year) {
            29
        } else {
            28
        }
    } else if month == 4 || month == 6 || month == 9 || month == 11 {
        30
    } else {
        31
    }
}

/// An exact Gregorian UTC date at midnight; supported years are 1970 through 9999.
pub fn calendar_date(year: u16, month: u8, day: u8) -> (time: Option<CanonicalTime>)
    ensures
        time == date_time(year as int, month as int, day as int),
        time matches Some(t) ==> t.0 as int == date_millis(year as int, month as int, day as int),
{
    if year < 1970 || year > 9999 || month < 1 || month > 12 {
        return None;
    }
    if day == 0 || day as u64 > days_in_month(year, month) {
        return None;
    }
    let mut days: u64 = 0;
    let mut y: u16 = 1970;
    while y < year
        invariant
            1970 <= y <= year <= 9999,
            days as int == days_before_year(y as int),
            days <= 366 * (y - 1970),
        decreases year - y,
    {
        days = days + if is_leap(y) {
            366
        } else {
            365
        };
        y += 1;
    }
    let mut m: u8 = 1;
    while m < month
        invariant
            1970 <= year <= 9999,
            1 <= m <= month <= 12,
            days as int == days_before_year(year as int) + days_before_month(
                year as int,
                m as int,
            ),
            days <= 366 * (year - 1970) + 31 * (m - 1),
        decreases month - m,
    {
        days = days + days_in_month(year, m);
        m += 1;
    }
    proof {
        dates_fit(year as int, month as int, day as int);
    }
    Some(CanonicalTime((days + (day as u64 - 1)) * 86_400_000))
}

proof fn lemma_year_start(year: int)
    requires
        1970 <= year,
    ensures
        days_before_year(year) == 365 * (year - 1970) + (year - 1) / 4 - (year - 1) / 100 + (year - 1)
            / 400 - 477,
    decreases year,
{
    if year > 1970 {
        lemma_year_start(year - 1);
    }
}

/// Which dates there are, in the years from 1970 to 9999: thirty days have April, June, September
/// and November, February has twenty-eight or, in a leap year, twenty-nine, and the other months
/// have thirty-one. A year is a leap year if it is divisible by four, but not by a hundred unless by
/// four hundred.
pub proof fn months_have_their_days(year: int, month: int, day: int)
    ensures
        date_time(year, month, day) is Some <==> {
            let leap = year % 400 == 0 || (year % 4 == 0 && year % 100 != 0);
            &&& 1970 <= year <= 9999
            &&& 1 <= month <= 12
            &&& 1 <= day
            &&& day <= if month == 2 && leap {
                29int
            } else if month == 2 {
                28
            } else if month == 4 || month == 6 || month == 9 || month == 11 {
                30
            } else {
                31
            }
        },
{
}

/// Times are in milliseconds: each date is exactly a day of 86 400 000 after the date before it,
/// within a month, from month to month and from year to year, and the first of January 1970 is at
/// nothing.
pub proof fn days_follow_one_another(year: int, month: int, day: int)
    requires
        date_time(year, month, day) is Some,
    ensures
        ({
            let t = date_time(year, month, day)->Some_0.0;
            &&& date_time(year, month, day + 1) matches Some(next) ==> next.0 == t + 86_400_000
            &&& date_time(year, month, day + 1) is None && month < 12 ==> date_time(
                year,
                month + 1,
                1,
            ) is Some && date_time(year, month + 1, 1)->Some_0.0 == t + 86_400_000
            &&& date_time(year, month, day + 1) is None && month == 12 && year < 9999 ==> date_time(
                year + 1,
                1,
                1,
            ) is Some && date_time(year + 1, 1, 1)->Some_0.0 == t + 86_400_000
            &&& year == 1970 && month == 1 && day == 1 ==> t == 0
        }),
{
    dates_fit(year, month, day);
    if date_time(year, month, day + 1) is Some {
        dates_fit(year, month, day + 1);
    } else if month < 12 {
        dates_fit(year, month + 1, 1);
    } else if year < 9999 {
        dates_fit(year + 1, 1, 1);
        months_fill_the_year(year);
    }
}

/// When a year starts: after 365 days for each year since 1970, and one more for each leap year
/// among them.
pub proof fn years_start_after_their_days(year: int)
    requires
        1970 <= year <= 9999,
    ensures
        date_time(year, 1, 1) is Some,
        date_time(year, 1, 1)->Some_0.0 == (365 * (year - 1970) + (year - 1) / 4 - (year - 1) / 100
            + (year - 1) / 400 - 477) * 86_400_000,
{
    lemma_year_start(year);
    dates_fit(year, 1, 1);
}

} // verus!
