//! A date and time of day at a fixed whole-hour offset from UTC.
//!
//! A [`TimePoint`] is validated when it is built, compared by the instant it
//! denotes (its count of seconds since 1970-01-01T00:00:00 UTC), re-expressed
//! under another offset without moving that instant, and moved forward or
//! backward by calendar amounts. [`CivilTime`] is the same record over
//! mathematical integers; every contract speaks of it.

use vstd::arithmetic::div_mod::{lemma_fundamental_div_mod, lemma_fundamental_div_mod_converse};
use vstd::prelude::*;
use vstd::string::StringExecFns;
use crate::decimal::{padded, push_padded, push_signed_padded, signed_padded};
use crate::domain::clock::{ClockReading, read_local_clock};
use crate::domain::calendar::{
    Date,
    days_before_month,
    days_before_year,
    days_in_month,
    days_in_year,
    is_leap_year,
    lemma_days_before_month_values,
    lemma_days_before_next_year,
    lemma_days_before_year_grows,
    lemma_day_number_injective,
    lemma_day_number_orders_dates,
    lemma_next_day,
    lemma_next_month_start,
    lemma_plus_days,
    lemma_plus_days_unique,
    lemma_prev_day,
};

verus! {

/// The mathematical value of a [`TimePoint`]: the seven fields as unbounded
/// integers. Intermediate results of calendar arithmetic live here too, so
/// nothing is assumed of the fields; see [`CivilTime::valid`].
pub struct CivilTime {
    pub year: int,
    pub month: int,
    pub day: int,
    pub hour: int,
    pub minute: int,
    pub second: int,
    pub utc_offset: int,
}

impl CivilTime {
    pub open spec fn date(self) -> Date {
        Date { year: self.year, month: self.month, day: self.day }
    }

    pub open spec fn valid_date(self) -> bool {
        self.date().valid()
    }

    pub open spec fn valid_time(self) -> bool {
        &&& 0 <= self.hour <= 23
        &&& 0 <= self.minute <= 59
        &&& 0 <= self.second <= 59
    }

    pub open spec fn valid_offset(self) -> bool {
        -13 <= self.utc_offset <= 13
    }

    /// The invariant that construction establishes.
    pub open spec fn valid(self) -> bool {
        &&& self.valid_offset()
        &&& self.valid_date()
        &&& self.valid_time()
    }

    /// Seconds since local midnight.
    pub open spec fn second_of_day(self) -> int {
        self.hour * 3600 + self.minute * 60 + self.second
    }

    /// Seconds from 1970-01-01T00:00:00 UTC to the instant this denotes.
    pub open spec fn epoch_seconds(self) -> int {
        self.date().day_number() * 86400 + self.second_of_day() - self.utc_offset * 3600
    }

    /// Seconds by which `self` is later than `other`; negative when it is earlier.
    pub open spec fn bias(self, other: CivilTime) -> int {
        self.epoch_seconds() - other.epoch_seconds()
    }

    /// Seconds between the two instants, whichever comes first.
    pub open spec fn duration(self, other: CivilTime) -> int {
        if self.bias(other) < 0 {
            -self.bias(other)
        } else {
            self.bias(other)
        }
    }

    /// `self` denotes a later instant than `other`.
    pub open spec fn is_after(self, other: CivilTime) -> bool {
        self.bias(other) > 0
    }

    /// `self` denotes an earlier instant than `other`.
    pub open spec fn is_before(self, other: CivilTime) -> bool {
        self.bias(other) < 0
    }

    /// The two denote one instant, whatever their offsets and fields.
    pub open spec fn is_same_instant(self, other: CivilTime) -> bool {
        self.bias(other) == 0
    }

    /// These fields with `hours` added to the hour, the hour brought back into
    /// 0..=23 and each whole day of overflow carried into the date (borrowed
    /// from it, when the sum is negative).
    pub open spec fn shift_hours(self, hours: int) -> CivilTime {
        let total = self.hour + hours;
        let date = self.date().plus_days(total / 24);
        CivilTime { year: date.year, month: date.month, day: date.day, hour: total % 24, ..self }
    }

    /// The same instant under another offset: first brought to offset zero,
    /// then from there to `offset`. Minute and second stay as they are.
    pub open spec fn at_offset(self, offset: int) -> CivilTime {
        let reference = self.shift_hours(-self.utc_offset);
        CivilTime { utc_offset: offset, ..reference.shift_hours(offset) }
    }

    /// Whole months from the start of year 0 to the start of this month.
    pub open spec fn month_index(self) -> int {
        self.year * 12 + self.month - 1
    }

    /// The time point that lies `days` days and `seconds` seconds after the
    /// first midnight of the month that begins `months` months after the start
    /// of year 0. Any of the three may be negative or exceed its unit: whole
    /// days of `seconds` go to the date, and the date is found by walking from
    /// the first of the month.
    pub open spec fn from_counts(months: int, days: int, seconds: int, utc_offset: int) -> CivilTime {
        let first = Date { year: months / 12, month: months % 12 + 1, day: 1 };
        let date = first.plus_days(days + seconds / 86400);
        let in_day = seconds % 86400;
        CivilTime {
            year: date.year,
            month: date.month,
            day: date.day,
            hour: in_day / 3600,
            minute: in_day % 3600 / 60,
            second: in_day % 60,
            utc_offset,
        }
    }

    /// This time point moved forward by a calendar amount. A negative
    /// component counts as zero. Years and months move the month; days and
    /// the time of day are then counted on from the first of that month, so
    /// a day beyond the end of the month runs on into the months after it.
    pub open spec fn advance(
        self,
        year: int,
        month: int,
        day: int,
        hour: int,
        minute: int,
        second: int,
    ) -> CivilTime {
        CivilTime::from_counts(
            self.month_index() + 12 * at_least_zero(year) + at_least_zero(month),
            self.day - 1 + at_least_zero(day),
            self.second_of_day() + 3600 * at_least_zero(hour) + 60 * at_least_zero(minute)
                + at_least_zero(second),
            self.utc_offset,
        )
    }

    /// This time point moved backward by a calendar amount. A negative
    /// component counts as zero. Years and months move the month; days and
    /// the time of day are then counted back (or on) from the first of that
    /// month.
    pub open spec fn retreat(
        self,
        year: int,
        month: int,
        day: int,
        hour: int,
        minute: int,
        second: int,
    ) -> CivilTime {
        CivilTime::from_counts(
            self.month_index() - 12 * at_least_zero(year) - at_least_zero(month),
            self.day - 1 - at_least_zero(day),
            self.second_of_day() - 3600 * at_least_zero(hour) - 60 * at_least_zero(minute)
                - at_least_zero(second),
            self.utc_offset,
        )
    }

    /// The printed form: year, month and day joined by `-`, a space, hour,
    /// minute and second joined by `:`, then ` UTC` and the offset behind
    /// its sign. The year is filled with zeros to four characters, the other
    /// fields to two, a minus sign counting as one of them.
    pub open spec fn text(self) -> Seq<char> {
        padded(self.year, 4) + seq!['-'] + padded(self.month, 2) + seq!['-'] + padded(self.day, 2)
            + seq![' '] + padded(self.hour, 2) + seq![':'] + padded(self.minute, 2) + seq![':']
            + padded(self.second, 2) + seq![' ', 'U', 'T', 'C'] + signed_padded(
            self.utc_offset,
            2,
        )
    }

    /// Why construction refuses these fields, if it does. The offset is looked
    /// at first, then the date, then the time of day.
    pub open spec fn rejection(self) -> Option<ConstructionError> {
        if !self.valid_offset() {
            Some(ConstructionError::OffsetOutOfRange)
        } else if !self.valid_date() {
            Some(ConstructionError::InvalidDate)
        } else if !self.valid_time() {
            Some(ConstructionError::InvalidTime)
        } else {
            None
        }
    }
}

/// A component of a calendar amount as the arithmetic counts it: a negative
/// one counts as zero.
pub open spec fn at_least_zero(delta: int) -> int {
    if delta < 0 {
        0
    } else {
        delta
    }
}

/// Why a set of fields is not a time point.
#[derive(Debug, Clone, Copy, PartialEq, Eq, Structural)]
pub enum ConstructionError {
    /// The UTC offset is not within -13..=13 hours.
    OffsetOutOfRange,
    /// The month is not within 1..=12, or the day is not a day of that month.
    InvalidDate,
    /// The hour is not within 0..=23, or the minute or second not within 0..=59.
    InvalidTime,
}

/// A date and time of day at a whole-hour offset from UTC.
#[derive(Debug, Clone, Copy, PartialEq, Eq, Structural)]
pub struct TimePoint {
    pub year: i32,
    pub month: i32,
    pub day: i32,
    pub hour: i32,
    pub minute: i32,
    pub second: i32,
    pub utc_offset: i32,
}

impl View for TimePoint {
    type V = CivilTime;

    open spec fn view(&self) -> CivilTime {
        CivilTime {
            year: self.year as int,
            month: self.month as int,
            day: self.day as int,
            hour: self.hour as int,
            minute: self.minute as int,
            second: self.second as int,
            utc_offset: self.utc_offset as int,
        }
    }
}

impl TimePoint {
    /// Builds a time point from fields that pass validation, and says which
    /// check failed otherwise.
    pub fn new(
        year: i32,
        month: i32,
        day: i32,
        hour: i32,
        minute: i32,
        second: i32,
        utc_offset: i32,
    ) -> (r: Result<TimePoint, ConstructionError>)
        ensures
            r == match (TimePoint { year, month, day, hour, minute, second, utc_offset })@.rejection() {
                None => Ok(TimePoint { year, month, day, hour, minute, second, utc_offset }),
                Some(e) => Err(e),
            },
            r is Ok <==> (TimePoint { year, month, day, hour, minute, second, utc_offset })@.valid(),
    {
        if utc_offset > 13 || utc_offset < -13 {
            return Err(ConstructionError::OffsetOutOfRange);
        }
        if !TimePoint::valid_date(year, month, day) {
            return Err(ConstructionError::InvalidDate);
        }
        if !TimePoint::valid_time(hour, minute, second) {
            return Err(ConstructionError::InvalidTime);
        }
        Ok(TimePoint { year, month, day, hour, minute, second, utc_offset })
    }

    /// Moves this time point forward by a calendar amount, in place. A
    /// negative component counts as zero. Seconds carry into minutes, minutes
    /// into hours, hours into days, months into years; days beyond the end of
    /// the month then run on, one month's length at a time. Date and time of
    /// day must be valid and the year of the result must fit the field.
    pub fn after(&mut self, year: i32, month: i32, day: i32, hour: i32, minute: i32, second: i32)
        requires
            old(self)@.valid_date(),
            old(self)@.valid_time(),
            old(self)@.advance(
                year as int,
                month as int,
                day as int,
                hour as int,
                minute as int,
                second as int,
            ).year <= i32::MAX,
        ensures
            final(self)@ == old(self)@.advance(
                year as int,
                month as int,
                day as int,
                hour as int,
                minute as int,
                second as int,
            ),
            final(self)@.valid_date(),
            final(self)@.valid_time(),
            final(self).utc_offset == old(self).utc_offset,
            final(self)@.epoch_seconds() >= old(self)@.epoch_seconds(),
            year <= 0 && month <= 0 && day <= 0 && hour <= 0 && minute <= 0 && second <= 0
                ==> *final(self) == *old(self),
    {
        proof {
            lemma_advance(
                self@,
                year as int,
                month as int,
                day as int,
                hour as int,
                minute as int,
                second as int,
            );
        }
        let (y, m, d, h, mi, s) = normalize(
            self.year as i64 + non_negative(year),
            self.month as i64 + non_negative(month),
            self.day as i64 + non_negative(day),
            self.hour as i64 + non_negative(hour),
            self.minute as i64 + non_negative(minute),
            self.second as i64 + non_negative(second),
        );
        self.year = y as i32;
        self.month = m as i32;
        self.day = d as i32;
        self.hour = h as i32;
        self.minute = mi as i32;
        self.second = s as i32;
    }

    /// Moves this time point backward by a calendar amount, in place. A
    /// negative component counts as zero. Seconds borrow from minutes, minutes
    /// from hours, hours from days, months from years; a day before the first
    /// of the month then borrows the length of the month before, as often as
    /// needed, and a day beyond the end of a shorter month runs on into the
    /// next. Date and time of day must be valid and the year of the result
    /// must fit the field.
    pub fn before(&mut self, year: i32, month: i32, day: i32, hour: i32, minute: i32, second: i32)
        requires
            old(self)@.valid_date(),
            old(self)@.valid_time(),
            old(self)@.retreat(
                year as int,
                month as int,
                day as int,
                hour as int,
                minute as int,
                second as int,
            ).year >= i32::MIN,
        ensures
            final(self)@ == old(self)@.retreat(
                year as int,
                month as int,
                day as int,
                hour as int,
                minute as int,
                second as int,
            ),
            final(self)@.valid_date(),
            final(self)@.valid_time(),
            final(self).utc_offset == old(self).utc_offset,
            final(self)@.epoch_seconds() <= old(self)@.epoch_seconds(),
            year <= 0 && month <= 0 && day <= 0 && hour <= 0 && minute <= 0 && second <= 0
                ==> *final(self) == *old(self),
    {
        proof {
            lemma_retreat(
                self@,
                year as int,
                month as int,
                day as int,
                hour as int,
                minute as int,
                second as int,
            );
        }
        let (y, m, d, h, mi, s) = normalize(
            self.year as i64 - non_negative(year),
            self.month as i64 - non_negative(month),
            self.day as i64 - non_negative(day),
            self.hour as i64 - non_negative(hour),
            self.minute as i64 - non_negative(minute),
            self.second as i64 - non_negative(second),
        );
        self.year = y as i32;
        self.month = m as i32;
        self.day = d as i32;
        self.hour = h as i32;
        self.minute = mi as i32;
        self.second = s as i32;
    }

    pub fn is_leap_year(year: i32) -> (r: bool)
        ensures
            r == is_leap_year(year as int),
    {
        leap_year(year as i64)
    }

    pub fn year_to_days(year: i32) -> (r: i32)
        ensures
            r == days_in_year(year as int),
    {
        if TimePoint::is_leap_year(year) {
            366
        } else {
            365
        }
    }

    /// Length of `month` in `year`; 0 when there is no such month.
    pub fn month_to_days(month: i32, year: i32) -> (r: i32)
        ensures
            r == days_in_month(month as int, year as int),
    {
        month_length(month as i64, year as i64) as i32
    }

    /// Re-expresses this time point under the offset `new_utc_zone`, in place.
    /// The instant it denotes does not move. The hour is first brought to
    /// offset zero and then to the new offset, each time carrying whole days
    /// into the date or borrowing them from it. The date must be valid and
    /// the year of the result must fit the field.
    pub fn to_utc(&mut self, new_utc_zone: i32)
        requires
            old(self)@.valid_date(),
            i32::MIN <= old(self)@.at_offset(new_utc_zone as int).year <= i32::MAX,
        ensures
            final(self)@ == old(self)@.at_offset(new_utc_zone as int),
            final(self)@.epoch_seconds() == old(self)@.epoch_seconds(),
            final(self)@.valid_date(),
            0 <= final(self).hour <= 23,
            final(self).minute == old(self).minute,
            final(self).second == old(self).second,
            final(self).utc_offset == new_utc_zone,
    {
        proof {
            lemma_at_offset_keeps_instant(self@, new_utc_zone as int);
            lemma_shift_hours(self@, -self@.utc_offset);
        }
        let stz_hour: i64 = self.hour as i64 - self.utc_offset as i64;
        let (stz_year, stz_month, stz_day, stz_hour) = carry_hours(
            self.year as i64,
            self.month as i64,
            self.day as i64,
            stz_hour,
        );
        let ntz_hour: i64 = stz_hour + new_utc_zone as i64;
        let (ntz_year, ntz_month, ntz_day, ntz_hour) = carry_hours(
            stz_year,
            stz_month,
            stz_day,
            ntz_hour,
        );
        self.year = ntz_year as i32;
        self.month = ntz_month as i32;
        self.day = ntz_day as i32;
        self.hour = ntz_hour as i32;
        self.utc_offset = new_utc_zone;
    }

    pub fn valid_date(year: i32, month: i32, day: i32) -> (r: bool)
        ensures
            r == (Date { year: year as int, month: month as int, day: day as int }).valid(),
    {
        month <= 12 && month >= 1 && day <= TimePoint::month_to_days(month, year) && day >= 1
    }

    pub fn valid_time(hour: i32, minute: i32, second: i32) -> (r: bool)
        ensures
            r == (0 <= hour <= 23 && 0 <= minute <= 59 && 0 <= second <= 59),
    {
        hour <= 23 && hour >= 0 && minute <= 59 && minute >= 0 && second <= 59 && second >= 0
    }

    pub fn valid_timepoint(
        year: i32,
        month: i32,
        day: i32,
        hour: i32,
        minute: i32,
        second: i32,
        utc_offset: i32,
    ) -> (r: bool)
        ensures
            r == (TimePoint { year, month, day, hour, minute, second, utc_offset })@.valid(),
    {
        if utc_offset > 13 || utc_offset < -13 {
            return false;
        }
        TimePoint::valid_date(year, month, day) && TimePoint::valid_time(hour, minute, second)
    }

    /// Seconds from 1970-01-01T00:00:00 UTC to this instant. The years between
    /// 1970 and this one are walked one by one; the fields need not be valid.
    pub fn to_seconds(&self) -> (r: i64)
        ensures
            r == self@.epoch_seconds(),
    {
        let mut total_days: i64 = 0;
        let mut year: i32 = 1970;
        if self.year >= 1970 {
            while year < self.year
                invariant
                    1970 <= year <= self.year,
                    total_days == days_before_year(year as int),
                    0 <= total_days <= 366 * (year - 1970),
                decreases self.year - year,
            {
                proof {
                    lemma_days_before_next_year(year as int);
                }
                total_days = total_days + TimePoint::year_to_days(year) as i64;
                year = year + 1;
            }
        } else {
            while year > self.year
                invariant
                    self.year <= year <= 1970,
                    total_days == days_before_year(year as int),
                    366 * (year - 1970) <= total_days <= 0,
                decreases year - self.year,
            {
                proof {
                    lemma_days_before_next_year(year - 1);
                }
                year = year - 1;
                total_days = total_days - TimePoint::year_to_days(year) as i64;
            }
        }
        let mut month: i32 = 1;
        let mut month_days: i64 = 0;
        while month < self.month
            invariant
                1 <= month,
                month <= self.month || month == 1,
                month_days == days_before_month(month as int, self.year as int),
                0 <= month_days <= 31 * (month - 1),
                month_days <= 366,
            decreases self.month - month,
        {
            proof {
                lemma_days_before_month_values(self.year as int);
            }
            month_days = month_days + TimePoint::month_to_days(month, self.year) as i64;
            month = month + 1;
        }
        total_days = total_days + month_days + (self.day as i64 - 1);
        total_days * 86400 + (self.hour as i64) * 3600 + (self.minute as i64) * 60 + (
        self.second as i64) - (self.utc_offset as i64) * 3600
    }

    /// The printed form, such as `2023-03-15 12:00:00 UTC+1`.
    pub fn to_string(&self) -> (r: String)
        ensures
            r@ == self@.text(),
    {
        proof {
            reveal_strlit("-");
            reveal_strlit(" ");
            reveal_strlit(":");
            reveal_strlit(" UTC");
        }
        let mut text = String::new();
        push_padded(&mut text, self.year as i64, 4);
        text.append("-");
        push_padded(&mut text, self.month as i64, 2);
        text.append("-");
        push_padded(&mut text, self.day as i64, 2);
        text.append(" ");
        push_padded(&mut text, self.hour as i64, 2);
        text.append(":");
        push_padded(&mut text, self.minute as i64, 2);
        text.append(":");
        push_padded(&mut text, self.second as i64, 2);
        text.append(" UTC");
        push_signed_padded(&mut text, self.utc_offset as i64, 2);
        assert(text@ =~= self@.text());
        text
    }

    /// Installs the given fields as they are, unvalidated: the mutator through
    /// which a reading of the clock enters.
    pub fn set_now(
        &mut self,
        year: i32,
        month: i32,
        day: i32,
        hour: i32,
        minute: i32,
        second: i32,
        utc_offset: i32,
    )
        ensures
            *final(self) == (TimePoint { year, month, day, hour, minute, second, utc_offset }),
    {
        self.year = year;
        self.month = month;
        self.day = day;
        self.hour = hour;
        self.minute = minute;
        self.second = second;
        self.utc_offset = utc_offset;
    }

    /// Installs a reading of the clock as it is, with the offset in whole hours.
    pub fn set_from_clock(&mut self, reading: &ClockReading)
        ensures
            final(self)@ == (CivilTime {
                year: reading.year as int,
                month: reading.month as int,
                day: reading.day as int,
                hour: reading.hour as int,
                minute: reading.minute as int,
                second: reading.second as int,
                utc_offset: reading.whole_hours(),
            }),
            reading.in_range() ==> final(self)@.valid_time() && 1 <= final(self).month <= 12 && 1
                <= final(self).day <= 31 && -23 <= final(self).utc_offset <= 23,
    {
        let utc = reading.utc_offset_hours();
        self.set_now(
            reading.year,
            reading.month,
            reading.day,
            reading.hour,
            reading.minute,
            reading.second,
            utc,
        );
    }

    /// Overwrites this time point with the local date and time that the
    /// system clock shows now, at the machine's offset from UTC in whole
    /// hours. The fields are taken as the clock gives them: they are within
    /// their ranges, but the day is not checked against the month, nor the
    /// offset against -13..=13. Where the clock stands so far from 1970 that
    /// no local date can be given for it, nothing is installed and the time
    /// point stays as it was.
    pub fn get_now(&mut self)
        ensures
            *final(self) == *old(self) || (final(self)@.valid_time() && 1 <= final(self).month <= 12
                && 1 <= final(self).day <= 31 && -23 <= final(self).utc_offset <= 23),
    {
        match read_local_clock() {
            Some(reading) => {
                self.set_from_clock(&reading);
            },
            None => {},
        }
    }

    /// Seconds by which `self` is later than `tp2`; negative when it is earlier.
    pub fn calc_bias_with(&self, tp2: &TimePoint) -> (r: i64)
        ensures
            r == self@.bias(tp2@),
    {
        proof {
            lemma_epoch_bounds(*self);
            lemma_epoch_bounds(*tp2);
        }
        let total_seconds1 = self.to_seconds();
        let total_seconds2 = tp2.to_seconds();
        total_seconds1 - total_seconds2
    }

    /// Seconds between the two instants.
    pub fn calc_duration_with(&self, timepoint2: &TimePoint) -> (r: i64)
        ensures
            r == self@.duration(timepoint2@),
            r >= 0,
    {
        proof {
            lemma_epoch_bounds(*self);
            lemma_epoch_bounds(*timepoint2);
        }
        let bias = self.calc_bias_with(timepoint2);
        if bias < 0 {
            -bias
        } else {
            bias
        }
    }

    pub fn is_after(&self, other: &TimePoint) -> (r: bool)
        ensures
            r == self@.is_after(other@),
    {
        self.calc_bias_with(other) > 0
    }

    pub fn is_before(&self, other: &TimePoint) -> (r: bool)
        ensures
            r == self@.is_before(other@),
    {
        self.calc_bias_with(other) < 0
    }

    /// Whether the two denote the same instant, whatever their offsets.
    pub fn is(&self, other: &TimePoint) -> (r: bool)
        ensures
            r == self@.is_same_instant(other@),
    {
        self.calc_bias_with(other) == 0
    }
}

/// A component of a calendar amount, widened; a negative one counts as zero.
fn non_negative(delta: i32) -> (r: i64)
    ensures
        r == at_least_zero(delta as int),
{
    if delta >= 0 {
        delta as i64
    } else {
        0
    }
}

/// Quotient and remainder of `value` by a positive `unit`, the remainder never
/// negative: what a unit keeps and what it hands to the next larger one,
/// whether that is a carry or a borrow.
fn split_units(value: i64, unit: i64) -> (r: (i64, i64))
    requires
        unit > 0,
        value > i64::MIN,
    ensures
        r.0 == value as int / unit as int,
        r.1 == value as int % unit as int,
{
    let quotient = value / unit;
    let remainder = value % unit;
    if remainder < 0 {
        proof {
            let q = (-value) as int / unit as int;
            let rem = (-value) as int % unit as int;
            lemma_fundamental_div_mod(-value as int, unit as int);
            assert(value == (-q - 1) * unit + (unit - rem)) by (nonlinear_arith)
                requires
                    -value == unit * q + rem,
            ;
            lemma_fundamental_div_mod_converse(value as int, unit as int, -q - 1, unit - rem);
        }
        (quotient - 1, remainder + unit)
    } else {
        proof {
            if value < 0 {
                let q = (-value) as int / unit as int;
                lemma_fundamental_div_mod(-value as int, unit as int);
                assert(value == (-q) * unit + 0) by (nonlinear_arith)
                    requires
                        -value == unit * q + 0,
                ;
                lemma_fundamental_div_mod_converse(value as int, unit as int, -q, 0);
            }
        }
        (quotient, remainder)
    }
}

/// Carry and borrow normalization. Takes fields that a sum or difference may
/// have pushed out of range and brings each back into range, smallest unit
/// first: seconds into minutes, minutes into hours, hours into days, months
/// into years. The day is settled last, against the month it then stands in:
/// below 1 it borrows the length of the month before, beyond the end of the
/// month it runs on into the next. Returns year, month, day, hour, minute and
/// second.
fn normalize(year: i64, month: i64, day: i64, hour: i64, minute: i64, second: i64) -> (r: (
    i64,
    i64,
    i64,
    i64,
    i64,
    i64,
))
    requires
        -0x1_0000_0000 <= year <= 0x1_0000_0000,
        -0x1_0000_0000 <= month <= 0x1_0000_0000,
        -0x1_0000_0000 <= day <= 0x1_0000_0000,
        -0x1_0000_0000 <= hour <= 0x1_0000_0000,
        -0x1_0000_0000 <= minute <= 0x1_0000_0000,
        -0x1_0000_0000 <= second <= 0x1_0000_0000,
    ensures
        (CivilTime {
            year: r.0 as int,
            month: r.1 as int,
            day: r.2 as int,
            hour: r.3 as int,
            minute: r.4 as int,
            second: r.5 as int,
            utc_offset: 0,
        }) == CivilTime::from_counts(
            year * 12 + month - 1,
            day - 1,
            3600 * hour + 60 * minute + second,
            0,
        ),
{
    let ghost months = year * 12 + month - 1;
    let ghost seconds = 3600 * hour + 60 * minute + second;
    let ghost first = Date { year: months / 12, month: months % 12 + 1, day: 1 };

    let (to_minutes, s) = split_units(second, 60);
    let (to_hours, mi) = split_units(minute + to_minutes, 60);
    let (to_days, h) = split_units(hour + to_hours, 24);
    let (to_years, month0) = split_units(month - 1, 12);
    let mut d: i64 = day + to_days;
    let mut m: i64 = month0 + 1;
    let mut y: i64 = year + to_years;
    proof {
        lemma_time_of_day_split(seconds, to_days as int, h as int, mi as int, s as int);
        lemma_fundamental_div_mod_converse(months, 12, y as int, m - 1);
    }
    let ghost target = first.day_number() + (d - 1);
    let ghost y_start = y;
    let ghost d_start = d;
    while d < 1
        invariant
            1 <= m <= 12,
            d_start <= d,
            d_start < 1 ==> d <= 31,
            d_start >= 1 ==> d == d_start,
            y_start - (d - d_start) <= y <= y_start,
            -0x2_0000_0000 <= y_start <= 0x2_0000_0000,
            -0x2_0000_0000 <= d_start <= 0x2_0000_0000,
            (Date { year: y as int, month: m as int, day: 1 }).day_number() + d - 1 == target,
        decreases 31 - d,
    {
        m = m - 1;
        if m < 1 {
            y = y - 1;
            m = 12;
        }
        proof {
            lemma_next_month_start(y as int, m as int);
        }
        d = d + month_length(m, y);
    }
    let ghost y_middle = y;
    let ghost d_middle = d;
    while d > month_length(m, y)
        invariant
            1 <= m <= 12,
            1 <= d <= d_middle,
            y_middle <= y <= y_middle + (d_middle - d),
            -0x4_0000_0000 <= y_middle <= 0x4_0000_0000,
            d_middle <= 0x2_0000_0000,
            (Date { year: y as int, month: m as int, day: 1 }).day_number() + d - 1 == target,
        decreases d,
    {
        proof {
            lemma_next_month_start(y as int, m as int);
        }
        let days_in_month = month_length(m, y);
        d = d - days_in_month;
        m = m + 1;
        if m > 12 {
            y = y + (m - 1) / 12;
            m = (m - 1) % 12 + 1;
        }
    }
    proof {
        lemma_plus_days_unique(
            first,
            day - 1 + seconds / 86400,
            Date { year: y as int, month: m as int, day: d as int },
        );
    }
    (y, m, d, h, mi, s)
}

/// A count of seconds written as whole days, hours, minutes and seconds, each
/// within its unit, is split by division in just that way.
proof fn lemma_time_of_day_split(seconds: int, days: int, hour: int, minute: int, second: int)
    requires
        seconds == 86400 * days + 3600 * hour + 60 * minute + second,
        0 <= hour <= 23,
        0 <= minute <= 59,
        0 <= second <= 59,
    ensures
        seconds / 86400 == days,
        seconds % 86400 / 3600 == hour,
        seconds % 86400 % 3600 / 60 == minute,
        seconds % 86400 % 60 == second,
{
}

/// Whether a multiple of a positive `unit` is at hand, for negative values too.
fn divides(unit: i64, value: i64) -> (r: bool)
    requires
        unit > 0,
        value > i64::MIN,
    ensures
        r == (value as int % unit as int == 0),
{
    let (_, remainder) = split_units(value, unit);
    remainder == 0
}

/// The leap-year rule for years beyond the range of the fields, which
/// intermediate results of calendar arithmetic may reach.
fn leap_year(year: i64) -> (r: bool)
    requires
        year > i64::MIN,
    ensures
        r == is_leap_year(year as int),
{
    divides(4, year) && (!divides(100, year) || divides(400, year))
}

/// Length of a month; 0 when there is no such month.
fn month_length(month: i64, year: i64) -> (r: i64)
    requires
        year > i64::MIN,
    ensures
        r == days_in_month(month as int, year as int),
{
    match month {
        1 | 3 | 5 | 7 | 8 | 10 | 12 => 31,
        4 | 6 | 9 | 11 => 30,
        2 => if leap_year(year) {
            29
        } else {
            28
        },
        _ => 0,
    }
}

/// Brings `hour` into 0..=23 by moving the date: back one day for every 24
/// hours that a negative hour lacks, forward one day for every 24 hours in
/// excess. Returns year, month, day and hour.
fn carry_hours(year: i64, month: i64, day: i64, hour: i64) -> (r: (i64, i64, i64, i64))
    requires
        (Date { year: year as int, month: month as int, day: day as int }).valid(),
        -0x1_0000_0000 <= year <= 0x1_0000_0000,
        -0x2_0000_0000 <= hour <= 0x2_0000_0000,
    ensures
        (Date { year: r.0 as int, month: r.1 as int, day: r.2 as int }) == (Date {
            year: year as int,
            month: month as int,
            day: day as int,
        }).plus_days(hour as int / 24),
        r.3 == hour as int % 24,
{
    let ghost start = Date { year: year as int, month: month as int, day: day as int };
    let mut y = year;
    let mut m = month;
    let mut d = day;
    let mut h = hour;
    if h < 0 {
        while h < 0
            invariant
                (Date { year: y as int, month: m as int, day: d as int }).valid(),
                hour <= h < 24,
                h as int % 24 == hour as int % 24,
                (Date { year: y as int, month: m as int, day: d as int }).plus_days(h as int / 24)
                    == start.plus_days(hour as int / 24),
                year + hour as int / 24 - h as int / 24 <= y <= year,
                -0x1_0000_0000 <= year <= 0x1_0000_0000,
                -0x2_0000_0000 <= hour,
            decreases 24 - h,
        {
            proof {
                lemma_prev_day(Date { year: y as int, month: m as int, day: d as int });
            }
            h = h + 24;
            d = d - 1;
            if d < 1 {
                m = m - 1;
                if m < 1 {
                    m = m + 12;
                    y = y - 1;
                }
                d = d + month_length(m, y);
            }
        }
    } else {
        while h >= 24
            invariant
                (Date { year: y as int, month: m as int, day: d as int }).valid(),
                0 <= h <= hour,
                h as int % 24 == hour as int % 24,
                (Date { year: y as int, month: m as int, day: d as int }).plus_days(h as int / 24)
                    == start.plus_days(hour as int / 24),
                year <= y <= year + hour as int / 24 - h as int / 24,
                -0x1_0000_0000 <= year <= 0x1_0000_0000,
                hour <= 0x2_0000_0000,
            decreases h,
        {
            proof {
                lemma_next_day(Date { year: y as int, month: m as int, day: d as int });
            }
            h = h - 24;
            d = d + 1;
            let dim = month_length(m, y);
            if d > dim {
                d = d - dim;
                m = m + 1;
                if m > 12 {
                    m = m - 12;
                    y = y + 1;
                }
            }
        }
    }
    (y, m, d, h)
}

/// Shifting the hour of a valid date gives a valid date and an hour within the
/// day, moves the instant by exactly that many hours, and moves the year by
/// no more than one for each day carried.
pub proof fn lemma_shift_hours(c: CivilTime, hours: int)
    requires
        c.valid_date(),
    ensures
        c.shift_hours(hours).valid_date(),
        0 <= c.shift_hours(hours).hour <= 23,
        c.shift_hours(hours).minute == c.minute,
        c.shift_hours(hours).second == c.second,
        c.shift_hours(hours).utc_offset == c.utc_offset,
        c.shift_hours(hours).epoch_seconds() == c.epoch_seconds() + hours * 3600,
        c.hour + hours >= 0 ==> c.year <= c.shift_hours(hours).year <= c.year + (c.hour + hours)
            / 24,
        c.hour + hours <= 0 ==> c.year + (c.hour + hours) / 24 <= c.shift_hours(hours).year
            <= c.year,
{
    lemma_plus_days(c.date(), (c.hour + hours) / 24);
}

/// Re-expressing a time point with a valid date under another offset keeps
/// the instant: the epoch count before and after is the same. The result has
/// a valid date, an hour within the day, and the minute and second it had.
pub proof fn lemma_at_offset_keeps_instant(c: CivilTime, offset: int)
    requires
        c.valid_date(),
    ensures
        c.at_offset(offset).epoch_seconds() == c.epoch_seconds(),
        c.at_offset(offset).valid_date(),
        0 <= c.at_offset(offset).hour <= 23,
        c.at_offset(offset).minute == c.minute,
        c.at_offset(offset).second == c.second,
        c.at_offset(offset).utc_offset == offset,
{
    lemma_shift_hours(c, -c.utc_offset);
    lemma_shift_hours(c.shift_hours(-c.utc_offset), offset);
}

/// What `from_counts` yields is a valid date and time of day. Its day number
/// is that of the first of the month plus the days counted, its time of day
/// the seconds left over.
pub proof fn lemma_from_counts(months: int, days: int, seconds: int, utc_offset: int)
    ensures
        CivilTime::from_counts(months, days, seconds, utc_offset).valid_date(),
        CivilTime::from_counts(months, days, seconds, utc_offset).valid_time(),
        CivilTime::from_counts(months, days, seconds, utc_offset).utc_offset == utc_offset,
        CivilTime::from_counts(months, days, seconds, utc_offset).second_of_day() == seconds
            % 86400,
        CivilTime::from_counts(months, days, seconds, utc_offset).date().day_number() == (Date {
            year: months / 12,
            month: months % 12 + 1,
            day: 1,
        }).day_number() + days + seconds / 86400,
{
    let first = Date { year: months / 12, month: months % 12 + 1, day: 1 };
    lemma_plus_days(first, days + seconds / 86400);
}

/// Counting from the fields of a valid time point gives that time point back.
pub proof fn lemma_from_counts_of_valid(c: CivilTime)
    requires
        c.valid_date(),
        c.valid_time(),
    ensures
        CivilTime::from_counts(c.month_index(), c.day - 1, c.second_of_day(), c.utc_offset) == c,
{
    let first = Date { year: c.month_index() / 12, month: c.month_index() % 12 + 1, day: 1 };
    lemma_fundamental_div_mod_converse(c.month_index(), 12, c.year, c.month - 1);
    lemma_time_of_day_split(c.second_of_day(), 0, c.hour, c.minute, c.second);
    lemma_plus_days_unique(first, c.day - 1, c.date());
}

/// The first of a month is no later than the first of any month that follows.
pub proof fn lemma_month_start_grows(earlier: int, later: int)
    requires
        earlier <= later,
    ensures
        (Date { year: earlier / 12, month: earlier % 12 + 1, day: 1 }).day_number() <= (Date {
            year: later / 12,
            month: later % 12 + 1,
            day: 1,
        }).day_number(),
{
    let a = Date { year: earlier / 12, month: earlier % 12 + 1, day: 1 };
    let b = Date { year: later / 12, month: later % 12 + 1, day: 1 };
    lemma_day_number_orders_dates(a, b);
    lemma_day_number_orders_dates(b, a);
}

/// Advancing a valid time point gives a valid one at the same offset that is
/// no earlier, in a year that is no earlier; with no positive component it
/// gives the time point back.
pub proof fn lemma_advance(
    c: CivilTime,
    year: int,
    month: int,
    day: int,
    hour: int,
    minute: int,
    second: int,
)
    requires
        c.valid_date(),
        c.valid_time(),
    ensures
        c.advance(year, month, day, hour, minute, second).valid_date(),
        c.advance(year, month, day, hour, minute, second).valid_time(),
        c.advance(year, month, day, hour, minute, second).utc_offset == c.utc_offset,
        c.advance(year, month, day, hour, minute, second).epoch_seconds() >= c.epoch_seconds(),
        c.advance(year, month, day, hour, minute, second).year >= c.year,
        year <= 0 && month <= 0 && day <= 0 && hour <= 0 && minute <= 0 && second <= 0
            ==> c.advance(year, month, day, hour, minute, second) == c,
{
    let months = c.month_index() + 12 * at_least_zero(year) + at_least_zero(month);
    let days = c.day - 1 + at_least_zero(day);
    let seconds = c.second_of_day() + 3600 * at_least_zero(hour) + 60 * at_least_zero(minute)
        + at_least_zero(second);
    let r = c.advance(year, month, day, hour, minute, second);
    lemma_from_counts(months, days, seconds, c.utc_offset);
    lemma_from_counts(c.month_index(), c.day - 1, c.second_of_day(), c.utc_offset);
    lemma_from_counts_of_valid(c);
    lemma_month_start_grows(c.month_index(), months);
    lemma_day_number_orders_dates(r.date(), c.date());
}

/// Retreating a valid time point gives a valid one at the same offset that is
/// no later, in a year that is no later; with no positive component it gives
/// the time point back.
pub proof fn lemma_retreat(
    c: CivilTime,
    year: int,
    month: int,
    day: int,
    hour: int,
    minute: int,
    second: int,
)
    requires
        c.valid_date(),
        c.valid_time(),
    ensures
        c.retreat(year, month, day, hour, minute, second).valid_date(),
        c.retreat(year, month, day, hour, minute, second).valid_time(),
        c.retreat(year, month, day, hour, minute, second).utc_offset == c.utc_offset,
        c.retreat(year, month, day, hour, minute, second).epoch_seconds() <= c.epoch_seconds(),
        c.retreat(year, month, day, hour, minute, second).year <= c.year,
        year <= 0 && month <= 0 && day <= 0 && hour <= 0 && minute <= 0 && second <= 0
            ==> c.retreat(year, month, day, hour, minute, second) == c,
{
    let months = c.month_index() - 12 * at_least_zero(year) - at_least_zero(month);
    let days = c.day - 1 - at_least_zero(day);
    let seconds = c.second_of_day() - 3600 * at_least_zero(hour) - 60 * at_least_zero(minute)
        - at_least_zero(second);
    let r = c.retreat(year, month, day, hour, minute, second);
    lemma_from_counts(months, days, seconds, c.utc_offset);
    lemma_from_counts(c.month_index(), c.day - 1, c.second_of_day(), c.utc_offset);
    lemma_from_counts_of_valid(c);
    lemma_month_start_grows(months, c.month_index());
    lemma_day_number_orders_dates(c.date(), r.date());
}

/// Swapping the two time points negates the bias and leaves the duration as
/// it is.
pub proof fn lemma_bias_and_duration_symmetry(a: CivilTime, b: CivilTime)
    ensures
        a.bias(b) == -b.bias(a),
        a.duration(b) == b.duration(a),
        a.duration(b) >= 0,
{
}

/// Of two time points, exactly one of these holds: the first is before the
/// second, they are the same instant, the first is after the second.
pub proof fn lemma_exactly_one_order(a: CivilTime, b: CivilTime)
    ensures
        a.is_before(b) || a.is_same_instant(b) || a.is_after(b),
        !(a.is_before(b) && a.is_same_instant(b)),
        !(a.is_before(b) && a.is_after(b)),
        !(a.is_same_instant(b) && a.is_after(b)),
{
}

/// The order is one of instants: every time point is the same instant as
/// itself, being after is being before the other way round, and both
/// relations pass along a chain.
pub proof fn lemma_order_of_instants(a: CivilTime, b: CivilTime, c: CivilTime)
    ensures
        a.is_same_instant(a),
        a.is_after(b) <==> b.is_before(a),
        a.is_same_instant(b) <==> b.is_same_instant(a),
        a.is_before(b) && b.is_before(c) ==> a.is_before(c),
        a.is_same_instant(b) && b.is_same_instant(c) ==> a.is_same_instant(c),
        a.is_same_instant(b) ==> (a.is_before(c) <==> b.is_before(c)),
{
}

/// Under one offset an instant has one valid way of being written: two valid
/// time points at the same offset that are the same instant agree in every
/// field. (Across offsets they need not.)
pub proof fn lemma_same_instant_same_fields(a: CivilTime, b: CivilTime)
    requires
        a.valid_date(),
        a.valid_time(),
        b.valid_date(),
        b.valid_time(),
        a.utc_offset == b.utc_offset,
        a.is_same_instant(b),
    ensures
        a == b,
{
    lemma_time_of_day_split(
        a.epoch_seconds() + a.utc_offset * 3600,
        a.date().day_number(),
        a.hour,
        a.minute,
        a.second,
    );
    lemma_time_of_day_split(
        b.epoch_seconds() + b.utc_offset * 3600,
        b.date().day_number(),
        b.hour,
        b.minute,
        b.second,
    );
    lemma_day_number_injective(a.date(), b.date());
}

/// An amount of days and time of day alone moves the instant by exactly its
/// seconds: forward when advancing, backward when retreating. (Months and
/// years are calendar amounts and have no fixed length.)
pub proof fn lemma_days_and_time_move_the_instant(
    c: CivilTime,
    day: int,
    hour: int,
    minute: int,
    second: int,
)
    requires
        c.valid_date(),
        c.valid_time(),
    ensures
        c.advance(0, 0, day, hour, minute, second).epoch_seconds() == c.epoch_seconds() + 86400
            * at_least_zero(day) + 3600 * at_least_zero(hour) + 60 * at_least_zero(minute)
            + at_least_zero(second),
        c.retreat(0, 0, day, hour, minute, second).epoch_seconds() == c.epoch_seconds() - 86400
            * at_least_zero(day) - 3600 * at_least_zero(hour) - 60 * at_least_zero(minute)
            - at_least_zero(second),
{
    let forward = c.second_of_day() + 3600 * at_least_zero(hour) + 60 * at_least_zero(minute)
        + at_least_zero(second);
    let backward = c.second_of_day() - 3600 * at_least_zero(hour) - 60 * at_least_zero(minute)
        - at_least_zero(second);
    lemma_from_counts(c.month_index(), c.day - 1 + at_least_zero(day), forward, c.utc_offset);
    lemma_from_counts(c.month_index(), c.day - 1 - at_least_zero(day), backward, c.utc_offset);
    lemma_from_counts(c.month_index(), c.day - 1, c.second_of_day(), c.utc_offset);
    lemma_from_counts_of_valid(c);
    lemma_fundamental_div_mod(forward, 86400);
    lemma_fundamental_div_mod(backward, 86400);
}

/// Retreating by an amount of days and time of day undoes advancing by it,
/// and the other way round.
pub proof fn lemma_retreat_undoes_advance(
    c: CivilTime,
    day: int,
    hour: int,
    minute: int,
    second: int,
)
    requires
        c.valid_date(),
        c.valid_time(),
    ensures
        c.advance(0, 0, day, hour, minute, second).retreat(0, 0, day, hour, minute, second) == c,
        c.retreat(0, 0, day, hour, minute, second).advance(0, 0, day, hour, minute, second) == c,
{
    let forward = c.advance(0, 0, day, hour, minute, second);
    let backward = c.retreat(0, 0, day, hour, minute, second);
    lemma_advance(c, 0, 0, day, hour, minute, second);
    lemma_retreat(c, 0, 0, day, hour, minute, second);
    lemma_days_and_time_move_the_instant(c, day, hour, minute, second);
    lemma_retreat(forward, 0, 0, day, hour, minute, second);
    lemma_advance(backward, 0, 0, day, hour, minute, second);
    lemma_days_and_time_move_the_instant(forward, day, hour, minute, second);
    lemma_days_and_time_move_the_instant(backward, day, hour, minute, second);
    lemma_same_instant_same_fields(forward.retreat(0, 0, day, hour, minute, second), c);
    lemma_same_instant_same_fields(backward.advance(0, 0, day, hour, minute, second), c);
}

/// Whatever its fields hold, a time point's epoch count stays far inside `i64`.
pub proof fn lemma_epoch_bounds(tp: TimePoint)
    ensures
        -100_000_000_000_000_000 < tp@.epoch_seconds() < 100_000_000_000_000_000,
{
    let year = tp.year as int;
    if year >= 1970 {
        lemma_days_before_year_grows(1970, year);
        lemma_days_before_year_at_most(1970, year);
    } else {
        lemma_days_before_year_grows(year, 1970);
        lemma_days_before_year_at_most(year, 1970);
    }
    lemma_days_before_month_bounds(tp.month as int, year);
}

/// At most 366 days lie between the starts of consecutive years.
proof fn lemma_days_before_year_at_most(earlier: int, later: int)
    requires
        earlier <= later,
    ensures
        days_before_year(later) - days_before_year(earlier) <= 366 * (later - earlier),
    decreases later - earlier,
{
    if earlier < later {
        lemma_days_before_year_at_most(earlier, later - 1);
        lemma_days_before_next_year(later - 1);
    }
}

/// However far the month number strays, no more than a year's days lie before it.
proof fn lemma_days_before_month_bounds(month: int, year: int)
    ensures
        0 <= days_before_month(month, year) <= 366,
    decreases month,
{
    lemma_days_before_month_values(year);
    if month > 13 {
        lemma_days_before_month_bounds(month - 1, year);
    }
}

} // verus!
