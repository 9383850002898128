//! The proleptic Gregorian calendar as mathematics.
//!
//! Everything here is specification: leap years, month lengths, the number of a
//! day counted from 1970-01-01, and walking through the calendar one day at a
//! time. The lemmas relate the day-by-day walk to the day number, which is what
//! makes carry and borrow across months and years provable.

use vstd::prelude::*;

verus! {

pub open spec fn is_leap_year(year: int) -> bool {
    year % 4 == 0 && (year % 100 != 0 || year % 400 == 0)
}

pub open spec fn days_in_year(year: int) -> int {
    if is_leap_year(year) {
        366
    } else {
        365
    }
}

/// Length of a month; 0 for a month number outside 1..=12.
pub open spec fn days_in_month(month: int, year: int) -> int {
    if month == 2 {
        if is_leap_year(year) {
            29
        } else {
            28
        }
    } else if month == 4 || month == 6 || month == 9 || month == 11 {
        30
    } else if 1 <= month <= 12 {
        31
    } else {
        0
    }
}

/// Days of `year` that lie before the first of `month`.
pub open spec fn days_before_month(month: int, year: int) -> int
    decreases month,
{
    if month <= 1 {
        0
    } else {
        days_before_month(month - 1, year) + days_in_month(month - 1, year)
    }
}

/// Days between 1970-01-01 and the first of January of `year`; negative for
/// years before 1970.
pub open spec fn days_before_year(year: int) -> int
    decreases
            if year >= 1970 {
                year - 1970
            } else {
                1970 - year
            },
{
    if year == 1970 {
        0
    } else if year > 1970 {
        days_before_year(year - 1) + days_in_year(year - 1)
    } else {
        days_before_year(year + 1) - days_in_year(year)
    }
}

/// A calendar date. Nothing is assumed of the fields; see [`Date::valid`].
pub struct Date {
    pub year: int,
    pub month: int,
    pub day: int,
}

impl Date {
    /// The month exists and the day lies within it.
    pub open spec fn valid(self) -> bool {
        &&& 1 <= self.month <= 12
        &&& 1 <= self.day <= days_in_month(self.month, self.year)
    }

    /// Days from 1970-01-01 to this date.
    pub open spec fn day_number(self) -> int {
        days_before_year(self.year) + days_before_month(self.month, self.year) + self.day - 1
    }

    /// The day after.
    pub open spec fn next(self) -> Date {
        if self.day < days_in_month(self.month, self.year) {
            Date { day: self.day + 1, ..self }
        } else if self.month < 12 {
            Date { year: self.year, month: self.month + 1, day: 1 }
        } else {
            Date { year: self.year + 1, month: 1, day: 1 }
        }
    }

    /// The day before.
    pub open spec fn prev(self) -> Date {
        if self.day > 1 {
            Date { day: self.day - 1, ..self }
        } else if self.month > 1 {
            Date {
                year: self.year,
                month: self.month - 1,
                day: days_in_month(self.month - 1, self.year),
            }
        } else {
            Date { year: self.year - 1, month: 12, day: 31 }
        }
    }

    /// The date `n` days later (earlier, for negative `n`), one day at a time.
    pub open spec fn plus_days(self, n: int) -> Date
        decreases
                if n >= 0 {
                    n
                } else {
                    -n
                },
    {
        if n == 0 {
            self
        } else if n > 0 {
            self.next().plus_days(n - 1)
        } else {
            self.prev().plus_days(n + 1)
        }
    }
}

/// One year on, the count of days before the year has grown by that year's length.
pub proof fn lemma_days_before_next_year(year: int)
    ensures
        days_before_year(year + 1) == days_before_year(year) + days_in_year(year),
{
}

/// The closed form of `days_before_month` for the twelve months and the end of the year.
pub proof fn lemma_days_before_month_values(year: int)
    ensures
        days_before_month(1, year) == 0,
        days_before_month(2, year) == 31,
        days_before_month(3, year) == 31 + days_in_month(2, year),
        days_before_month(4, year) == 62 + days_in_month(2, year),
        days_before_month(5, year) == 92 + days_in_month(2, year),
        days_before_month(6, year) == 123 + days_in_month(2, year),
        days_before_month(7, year) == 153 + days_in_month(2, year),
        days_before_month(8, year) == 184 + days_in_month(2, year),
        days_before_month(9, year) == 215 + days_in_month(2, year),
        days_before_month(10, year) == 245 + days_in_month(2, year),
        days_before_month(11, year) == 276 + days_in_month(2, year),
        days_before_month(12, year) == 306 + days_in_month(2, year),
        days_before_month(13, year) == days_in_year(year),
{
    reveal_with_fuel(days_before_month, 14);
}

/// Stepping to the next day keeps a date valid and raises its day number by one.
pub proof fn lemma_next_day(d: Date)
    requires
        d.valid(),
    ensures
        d.next().valid(),
        d.next().day_number() == d.day_number() + 1,
        d.year <= d.next().year <= d.year + 1,
{
    lemma_days_before_month_values(d.year);
    lemma_days_before_next_year(d.year);
    lemma_days_before_month_values(d.year + 1);
}

/// Stepping to the previous day keeps a date valid and lowers its day number by one.
pub proof fn lemma_prev_day(d: Date)
    requires
        d.valid(),
    ensures
        d.prev().valid(),
        d.prev().day_number() == d.day_number() - 1,
        d.year - 1 <= d.prev().year <= d.year,
{
    lemma_days_before_month_values(d.year);
    lemma_days_before_next_year(d.year - 1);
    lemma_days_before_month_values(d.year - 1);
}

/// Walking `n` days from a valid date ends on the valid date whose day number
/// is `n` higher; the year moves by at most one per day walked.
pub proof fn lemma_plus_days(d: Date, n: int)
    requires
        d.valid(),
    ensures
        d.plus_days(n).valid(),
        d.plus_days(n).day_number() == d.day_number() + n,
        n >= 0 ==> d.year <= d.plus_days(n).year <= d.year + n,
        n <= 0 ==> d.year + n <= d.plus_days(n).year <= d.year,
    decreases
            if n >= 0 {
                n
            } else {
                -n
            },
{
    if n > 0 {
        lemma_next_day(d);
        lemma_plus_days(d.next(), n - 1);
    } else if n < 0 {
        lemma_prev_day(d);
        lemma_plus_days(d.prev(), n + 1);
    }
}

/// Later years start on later days: at least 365 days lie between the starts
/// of consecutive years.
pub proof fn lemma_days_before_year_grows(earlier: int, later: int)
    requires
        earlier <= later,
    ensures
        days_before_year(later) - days_before_year(earlier) >= 365 * (later - earlier),
    decreases later - earlier,
{
    if earlier < later {
        lemma_days_before_year_grows(earlier, later - 1);
        lemma_days_before_next_year(later - 1);
    }
}

/// The first of the next month lies one month's length after the first of
/// this month, across the end of the year too.
pub proof fn lemma_next_month_start(year: int, month: int)
    requires
        1 <= month <= 12,
    ensures
        (if month < 12 {
            Date { year, month: month + 1, day: 1 }
        } else {
            Date { year: year + 1, month: 1, day: 1 }
        }).day_number() == (Date { year, month, day: 1 }).day_number() + days_in_month(month, year),
{
    lemma_days_before_month_values(year);
    lemma_days_before_next_year(year);
}

/// A valid date lies within its own year.
pub proof fn lemma_day_number_within_year(d: Date)
    requires
        d.valid(),
    ensures
        days_before_year(d.year) <= d.day_number() < days_before_year(d.year + 1),
{
    lemma_days_before_month_values(d.year);
    lemma_days_before_next_year(d.year);
}

/// The day number orders valid dates as the calendar does: by year, then
/// month, then day.
pub proof fn lemma_day_number_orders_dates(a: Date, b: Date)
    requires
        a.valid(),
        b.valid(),
    ensures
        a.day_number() < b.day_number() <==> (a.year < b.year || (a.year == b.year && (a.month
            < b.month || (a.month == b.month && a.day < b.day)))),
{
    lemma_day_number_within_year(a);
    lemma_day_number_within_year(b);
    if a.year < b.year {
        lemma_days_before_year_grows(a.year + 1, b.year);
    } else if b.year < a.year {
        lemma_days_before_year_grows(b.year + 1, a.year);
    } else {
        lemma_days_before_month_values(a.year);
    }
}

/// No two valid dates share a day number.
pub proof fn lemma_day_number_injective(a: Date, b: Date)
    requires
        a.valid(),
        b.valid(),
        a.day_number() == b.day_number(),
    ensures
        a == b,
{
    lemma_day_number_orders_dates(a, b);
    lemma_day_number_orders_dates(b, a);
}

/// `plus_days` is the only way to move `n` days on: any valid date whose day
/// number is `n` higher is the one it gives.
pub proof fn lemma_plus_days_unique(d: Date, n: int, e: Date)
    requires
        d.valid(),
        e.valid(),
        e.day_number() == d.day_number() + n,
    ensures
        d.plus_days(n) == e,
{
    lemma_plus_days(d, n);
    lemma_day_number_injective(d.plus_days(n), e);
}

} // verus!
