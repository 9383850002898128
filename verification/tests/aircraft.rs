use aviation::domain::aircraft::Aircraft;
use aviation::domain::time_point::TimePoint;

fn get_test_use() -> Aircraft {
    return Aircraft::new(
        "Air China".to_string(),
        "B".to_string(),
        "2627".to_string(),
        "Boeing".to_string(),
        "747".to_string(),
        "400".to_string(),
        TimePoint::new(2010, 9, 30, 0, 0, 0, 8).unwrap(),
        "F6C12Y128".to_string(),
    );
}

fn at(year: i32, month: i32) -> TimePoint {
    TimePoint::new(year, month, 15, 12, 0, 0, 8).unwrap()
}

#[test]
fn test_get_reg_code() {
    assert_eq!(get_test_use().get_reg_code(), "B2627");
}

#[test]
fn test_get_model() {
    assert_eq!(get_test_use().get_model(), "747-400");
}

#[test]
fn test_get_manufacturer() {
    assert_eq!(get_test_use().get_manufacturer(), "Boeing");
}

#[test]
fn test_get_operator() {
    assert_eq!(get_test_use().get_operator(), "Air China");
}

// The age is taken in October 2025, so that the sentence does not change
// with the day on which the test runs.
#[test]
fn aircraft_test_to_string() {
    assert_eq!(
        get_test_use().to_string_at(&at(2025, 10)),
        "Air China Boeing 747-400: Registed with B2627, serveced 15.1 years, cabin configured as F6C12Y128."
    );
}

#[test]
fn to_string_reads_the_clock_for_the_age() {
    let mut now = at(2025, 10);
    now.get_now();
    let aircraft = get_test_use();
    let text = aircraft.to_string();
    assert!(text.starts_with("Air China Boeing 747-400: Registed with B2627, serveced 1"));
    assert!(text.ends_with(" years, cabin configured as F6C12Y128."));
    let mut later = at(2025, 10);
    later.get_now();
    assert!(text == aircraft.to_string_at(&now) || text == aircraft.to_string_at(&later));
}

#[test]
fn service_span_borrows_a_year_for_an_earlier_month() {
    let aircraft = get_test_use();
    assert_eq!(aircraft.service_span_at(&at(2025, 10)), (15, 1));
    assert_eq!(aircraft.service_span_at(&at(2025, 9)), (15, 0));
    assert_eq!(aircraft.service_span_at(&at(2025, 8)), (14, 11));
    assert_eq!(aircraft.service_span_at(&at(2010, 9)), (0, 0));
    assert_eq!(aircraft.service_span_at(&at(2010, 1)), (-1, 4));
}

#[test]
fn age_in_tenths_rounds_the_months_to_the_nearest_tenth() {
    let aircraft = get_test_use();
    // months 0..=11 after September give these tenths of a year
    let tenths = [0, 1, 2, 3, 3, 4, 5, 6, 7, 8, 8, 9];
    for months in 0..12 {
        let month = 9 + months;
        let now = if month > 12 { at(2026, month - 12) } else { at(2025, month) };
        assert_eq!(aircraft.age_tenths_at(&now), 150 + tenths[months as usize]);
    }
    assert_eq!(aircraft.age_tenths_at(&at(2010, 9)), 0);
    assert_eq!(aircraft.age_tenths_at(&at(2010, 1)), -10 + 3);
}

#[test]
fn age_in_tenths_of_months_out_of_range() {
    let aircraft = Aircraft::new(
        "".into(),
        "".into(),
        "".into(),
        "".into(),
        "".into(),
        "".into(),
        TimePoint { year: 2000, month: 30, day: 1, hour: 0, minute: 0, second: 0, utc_offset: 0 },
        "".into(),
    );
    // 3 - 30 + 12 = -15 months: -12.5 tenths, the half rounded away from zero
    assert_eq!(aircraft.service_span_at(&at(2001, 3)), (0, -15));
    assert_eq!(aircraft.age_tenths_at(&at(2001, 3)), -13);
}

#[test]
fn to_string_at_writes_year_for_an_age_up_to_one() {
    let aircraft = get_test_use();
    assert_eq!(
        aircraft.to_string_at(&at(2011, 9)),
        "Air China Boeing 747-400: Registed with B2627, serveced 1 year, cabin configured as F6C12Y128."
    );
    assert_eq!(
        aircraft.to_string_at(&at(2011, 10)),
        "Air China Boeing 747-400: Registed with B2627, serveced 1.1 years, cabin configured as F6C12Y128."
    );
    assert_eq!(
        aircraft.to_string_at(&at(2011, 3)),
        "Air China Boeing 747-400: Registed with B2627, serveced 0.5 year, cabin configured as F6C12Y128."
    );
    assert_eq!(
        aircraft.to_string_at(&at(2010, 9)),
        "Air China Boeing 747-400: Registed with B2627, serveced 0 year, cabin configured as F6C12Y128."
    );
    assert_eq!(
        aircraft.to_string_at(&at(2010, 1)),
        "Air China Boeing 747-400: Registed with B2627, serveced -0.7 year, cabin configured as F6C12Y128."
    );
    assert_eq!(
        aircraft.to_string_at(&at(2030, 9)),
        "Air China Boeing 747-400: Registed with B2627, serveced 20 years, cabin configured as F6C12Y128."
    );
}
