//! A flight and the parts it is made of.

use vstd::prelude::*;
use crate::domain::aircraft::Aircraft;
use crate::domain::airline::Airline;
use crate::domain::airport::Airport;
use crate::domain::time_point::TimePoint;

verus! {

/// A flight from take-off to landing, with any stops between.
pub struct Flight {
    /// The operator's flight number first, code-share numbers after it.
    flight_number: Vec<FlightNumber>,
    /// Take-off first, landing last, layovers between.
    city: Vec<Airport>,
    /// Take-off first, landing last, layovers between.
    time: Vec<FlightTime>,
    /// In kilometres.
    distance: i32,
    aircraft: Aircraft,
    airline: Airline,
}

/// When something was planned and when it happened.
pub struct FlightTime {
    pub plan: TimePoint,
    pub actual: TimePoint,
}

/// A flight number: the airline's code and the number it gave the flight.
pub struct FlightNumber {
    airline_code: String,
    flight_code: String,
}

} // verus!
