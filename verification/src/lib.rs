//! Civil-calendar time points and the flight-domain records built on them.

pub mod decimal;
pub mod domain;
pub mod version;
