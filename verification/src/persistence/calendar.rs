//! The Gregorian calendar, extended to all years, and the numbering of its days
//! from 1970-01-01 on.
use vstd::prelude::*;

verus! {

/// The first year of the calendar.
pub const FIRST_YEAR: i32 = -262_143;

/// The last year of the calendar.
pub const LAST_YEAR: i32 = 262_142;

pub open spec fn is_leap(year: int) -> bool {
    year % 4 == 0 && (year % 100 != 0 || year % 400 == 0)
}

pub open spec fn days_in_month(year: int, month: int) -> int {
    if month == 2 {
        if is_leap(year) {
            29
        } else {
            28
        }
    } else if month == 4 || month == 6 || month == 9 || month == 11 {
        30
    } else {
        31
    }
}

/// Whether there is such a day.
pub open spec fn is_day(year: int, month: int, day: int) -> bool {
    &&& FIRST_YEAR <= year <= LAST_YEAR
    &&& 1 <= month <= 12
    &&& 1 <= day <= days_in_month(year, month)
}

/// How many days lie between the first day of the year 1 and that of `year`.
pub open spec fn days_before_year(year: int) -> int {
    365 * (year - 1) + (year - 1) / 4 - (year - 1) / 100 + (year - 1) / 400
}

/// How many days of the year come before the month.
pub open spec fn days_before_month(year: int, month: int) -> int
    decreases month,
{
    if month <= 1 {
        0
    } else {
        days_before_month(year, month - 1) + days_in_month(year, month - 1)
    }
}

/// The number of a day: how many days after 1970-01-01 it is.
pub open spec fn day_number(year: int, month: int, day: int) -> int {
    days_before_year(year) - days_before_year(1970) + days_before_month(year, month) + day - 1
}

/// A number that orders the days of the calendar.
pub open spec fn day_order(year: int, month: int, day: int) -> int {
    year * 512 + month * 32 + day
}

/// The day after another, as year, month and day; nothing where there is no such
/// day, or none after it.
pub open spec fn following_day(year: int, month: int, day: int) -> Option<(int, int, int)> {
    if !is_day(year, month, day) {
        None
    } else if day < days_in_month(year, month) {
        Some((year, month, day + 1))
    } else if month < 12 {
        Some((year, month + 1, 1))
    } else if year < LAST_YEAR {
        Some((year + 1, 1, 1))
    } else {
        None
    }
}

/// A year has 365 days, and a leap year one more.
pub proof fn year_length(year: int)
    ensures
        days_before_month(year, 13) == if is_leap(year) {
            366int
        } else {
            365
        },
        days_before_year(year + 1) == days_before_year(year) + days_before_month(year, 13),
{
    reveal_with_fuel(days_before_month, 14);
}

/// The day after another has the next number.
pub proof fn following_day_has_next_number(year: int, month: int, day: int)
    ensures
        following_day(year, month, day) matches Some(next) ==> is_day(next.0, next.1, next.2)
            && day_number(next.0, next.1, next.2) == day_number(year, month, day) + 1,
{
    if is_day(year, month, day) && day == days_in_month(year, month) && month == 12 {
        year_length(year);
    }
}

proof fn lemma_months_grow(year: int, earlier: int, later: int)
    requires
        1 <= earlier < later <= 13,
    ensures
        days_before_month(year, earlier) + days_in_month(year, earlier) <= days_before_month(
            year,
            later,
        ),
    decreases later,
{
    if later > earlier + 1 {
        lemma_months_grow(year, earlier, later - 1);
    }
}

proof fn lemma_years_grow(earlier: int, later: int)
    requires
        earlier < later,
    ensures
        days_before_year(earlier) + days_before_month(earlier, 13) <= days_before_year(later),
    decreases later - earlier,
{
    year_length(later - 1);
    if later > earlier + 1 {
        lemma_years_grow(earlier, later - 1);
    }
}

/// A later day has a larger number.
pub proof fn numbers_grow(earlier: (int, int, int), later: (int, int, int))
    requires
        is_day(earlier.0, earlier.1, earlier.2),
        is_day(later.0, later.1, later.2),
        day_order(earlier.0, earlier.1, earlier.2) < day_order(later.0, later.1, later.2),
    ensures
        day_number(earlier.0, earlier.1, earlier.2) < day_number(later.0, later.1, later.2),
{
    let (year, month, day) = earlier;
    lemma_months_grow(year, month, 13);
    if year < later.0 {
        lemma_years_grow(year, later.0);
        if later.1 > 1 {
            lemma_months_grow(later.0, 1, later.1);
        }
    } else if month < later.1 {
        lemma_months_grow(year, month, later.1);
    }
}

/// Days are counted from the first of January 1970. A year has thirty-one days in
/// January, March, May, July, August, October and December, thirty in April, June,
/// September and November, and in February twenty-eight, or twenty-nine in a leap
/// year.
pub proof fn months_have_their_days(year: int)
    ensures
        day_number(1970, 1, 1) == 0,
        days_in_month(year, 1) == 31,
        days_in_month(year, 2) == 28 || days_in_month(year, 2) == 29,
        days_in_month(year, 2) == 29 <==> days_before_year(year + 1) - days_before_year(year)
            == 366,
        days_in_month(year, 3) == 31,
        days_in_month(year, 4) == 30,
        days_in_month(year, 5) == 31,
        days_in_month(year, 6) == 30,
        days_in_month(year, 7) == 31,
        days_in_month(year, 8) == 31,
        days_in_month(year, 9) == 30,
        days_in_month(year, 10) == 31,
        days_in_month(year, 11) == 30,
        days_in_month(year, 12) == 31,
        year % 4 != 0 ==> !is_leap(year),
        year % 400 == 0 ==> is_leap(year),
        year % 100 == 0 && year % 400 != 0 ==> !is_leap(year),
        year % 4 == 0 && year % 100 != 0 ==> is_leap(year),
        year % 400 == 0 ==> year % 4 == 0,
{
    year_length(year);
    reveal_with_fuel(days_before_month, 13);
}

} // verus!
