//! The domain types: the civil-calendar time point and the records that hold it.

pub mod aircraft;
pub mod airline;
pub mod airport;
pub mod calendar;
pub mod clock;
pub mod flight;
pub mod time_point;
