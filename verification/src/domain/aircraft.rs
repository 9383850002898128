//! An aircraft, with the date it entered service.

use vstd::prelude::*;
use vstd::string::StringExecFns;
use crate::decimal::{push_tenths, tenths};
use crate::domain::time_point::{CivilTime, TimePoint};

verus! {

/// An aircraft. The fields are set when it is made.
#[derive(Debug, Clone)]
pub struct Aircraft {
    operator: String,
    nationality_code: String,
    reg_id: String,
    manufacturer: String,
    model: String,
    sub_model: String,
    in_service_date: TimePoint,
    /// Seats by class: F for first, C for business, Y for economy, as in `F6C12Y263`.
    cabin_config: String,
}

/// What an [`Aircraft`] holds, each text as its sequence of characters.
pub struct AircraftView {
    pub operator: Seq<char>,
    pub nationality_code: Seq<char>,
    pub reg_id: Seq<char>,
    pub manufacturer: Seq<char>,
    pub model: Seq<char>,
    pub sub_model: Seq<char>,
    pub in_service_date: CivilTime,
    pub cabin_config: Seq<char>,
}

/// A number of months as tenths of a year, rounded to the nearest tenth, a
/// half away from zero.
pub open spec fn tenths_of_year(months: int) -> int {
    if months >= 0 {
        (10 * months + 6) / 12
    } else {
        -((6 - 10 * months) / 12)
    }
}

impl AircraftView {
    /// The registration: nationality code, then the registration number.
    pub open spec fn reg_code(self) -> Seq<char> {
        self.nationality_code + self.reg_id
    }

    /// Model and sub-model with a hyphen between them.
    pub open spec fn model_name(self) -> Seq<char> {
        self.model + seq!['-'] + self.sub_model
    }

    /// Years and months in service at `now`, by the calendar's year and
    /// month alone: the difference of the years and of the months, a year
    /// borrowed when the month of `now` is the smaller.
    pub open spec fn service_span(self, now: CivilTime) -> (int, int) {
        let months = now.month - self.in_service_date.month;
        let years = now.year - self.in_service_date.year;
        if months < 0 {
            (years - 1, months + 12)
        } else {
            (years, months)
        }
    }

    /// The age at `now` in tenths of a year.
    pub open spec fn age_tenths(self, now: CivilTime) -> int {
        10 * self.service_span(now).0 + tenths_of_year(self.service_span(now).1)
    }

    /// The one-sentence description of the aircraft at `now`.
    pub open spec fn description(self, now: CivilTime) -> Seq<char> {
        self.operator + seq![' '] + self.manufacturer + seq![' '] + self.model_name()
            + ": Registed with "@ + self.reg_code() + ", serveced "@ + tenths(self.age_tenths(now))
            + seq![' '] + (if self.age_tenths(now) <= 10 {
            "year"@
        } else {
            "years"@
        }) + ", cabin configured as "@ + self.cabin_config + seq!['.']
    }
}

impl View for Aircraft {
    type V = AircraftView;

    closed spec fn view(&self) -> AircraftView {
        AircraftView {
            operator: self.operator@,
            nationality_code: self.nationality_code@,
            reg_id: self.reg_id@,
            manufacturer: self.manufacturer@,
            model: self.model@,
            sub_model: self.sub_model@,
            in_service_date: self.in_service_date@,
            cabin_config: self.cabin_config@,
        }
    }
}

impl Aircraft {
    pub fn new(
        operator: String,
        nationality_code: String,
        reg_id: String,
        manufacturer: String,
        model: String,
        sub_model: String,
        in_service_date: TimePoint,
        cabin_config: String,
    ) -> (r: Self)
        ensures
            r@ == (AircraftView {
                operator: operator@,
                nationality_code: nationality_code@,
                reg_id: reg_id@,
                manufacturer: manufacturer@,
                model: model@,
                sub_model: sub_model@,
                in_service_date: in_service_date@,
                cabin_config: cabin_config@,
            }),
    {
        Aircraft {
            operator,
            nationality_code,
            reg_id,
            manufacturer,
            model,
            sub_model,
            in_service_date,
            cabin_config,
        }
    }

    /// The registration, such as `B2627`.
    pub fn get_reg_code(&self) -> (r: String)
        ensures
            r@ == self@.reg_code(),
    {
        let mut text = String::new();
        text.append(self.nationality_code.as_str());
        text.append(self.reg_id.as_str());
        assert(text@ =~= self@.reg_code());
        text
    }

    /// Model and sub-model, such as `747-400`.
    pub fn get_model(&self) -> (r: String)
        ensures
            r@ == self@.model_name(),
    {
        proof {
            reveal_strlit("-");
        }
        let mut text = String::new();
        text.append(self.model.as_str());
        text.append("-");
        text.append(self.sub_model.as_str());
        assert(text@ =~= self@.model_name());
        text
    }

    pub fn get_manufacturer(&self) -> (r: String)
        ensures
            r@ == self@.manufacturer,
    {
        self.manufacturer.clone()
    }

    pub fn get_operator(&self) -> (r: String)
        ensures
            r@ == self@.operator,
    {
        self.operator.clone()
    }

    /// Years and months in service at `now`, counted by year and month alone.
    pub fn service_span_at(&self, now: &TimePoint) -> (r: (i64, i64))
        ensures
            r.0 == self@.service_span(now@).0,
            r.1 == self@.service_span(now@).1,
    {
        let month_diff = now.month as i64 - self.in_service_date.month as i64;
        let year_diff = now.year as i64 - self.in_service_date.year as i64;
        if month_diff < 0 {
            (year_diff - 1, month_diff + 12)
        } else {
            (year_diff, month_diff)
        }
    }

    /// The age at `now` in tenths of a year: 151 for an aircraft fifteen
    /// years and one month in service.
    pub fn age_tenths_at(&self, now: &TimePoint) -> (r: i64)
        ensures
            r == self@.age_tenths(now@),
    {
        let (years, months) = self.service_span_at(now);
        let part = if months >= 0 {
            (10 * months + 6) / 12
        } else {
            -((6 - 10 * months) / 12)
        };
        10 * years + part
    }

    /// The one-sentence description of the aircraft, its age taken at `now`.
    pub fn to_string_at(&self, now: &TimePoint) -> (r: String)
        ensures
            r@ == self@.description(now@),
    {
        proof {
            reveal_strlit(" ");
            reveal_strlit(".");
        }
        let age = self.age_tenths_at(now);
        let mut text = String::new();
        text.append(self.operator.as_str());
        text.append(" ");
        text.append(self.manufacturer.as_str());
        text.append(" ");
        text.append(self.get_model().as_str());
        text.append(": Registed with ");
        text.append(self.get_reg_code().as_str());
        text.append(", serveced ");
        push_tenths(&mut text, age);
        text.append(" ");
        if age <= 10 {
            text.append("year");
        } else {
            text.append("years");
        }
        text.append(", cabin configured as ");
        text.append(self.cabin_config.as_str());
        text.append(".");
        assert(text@ =~= self@.description(now@));
        text
    }

    /// The one-sentence description of the aircraft, its age taken at the
    /// moment of the call from the system clock: at some `now` whose fields
    /// are within the ranges that the clock keeps to. Where the clock cannot
    /// be read as a local date, the age is taken at the first second of 1970.
    pub fn to_string(&self) -> (r: String)
        ensures
            exists|now: CivilTime|
                {
                    &&& r@ == #[trigger] self@.description(now)
                    &&& now.valid_time()
                    &&& 1 <= now.month <= 12
                    &&& 1 <= now.day <= 31
                    &&& -23 <= now.utc_offset <= 23
                },
    {
        let mut now = TimePoint {
            year: 1970,
            month: 1,
            day: 1,
            hour: 0,
            minute: 0,
            second: 0,
            utc_offset: 0,
        };
        now.get_now();
        self.to_string_at(&now)
    }
}

} // verus!
