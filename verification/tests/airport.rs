use aviation::domain::airport::Airport;

#[test]
fn test_if_airport_creation_works() {
    let airport = Airport::new(
        "JFK".into(),
        "KJFK".into(),
        "John F. Kennedy International Airport".into(),
        "New York".into(),
        "NY".into(),
        "USA".into(),
    );

    assert_eq!(airport.get_iata_code(), "JFK");
    assert_eq!(airport.get_icao_code(), "KJFK");
    assert_eq!(airport.get_name(), "John F. Kennedy International Airport");
    assert_eq!(airport.get_city(), "New York");
    assert_eq!(airport.get_province(), "NY");
    assert_eq!(airport.get_country(), "USA");
}

#[test]
fn test_get_code() {
    let airport = Airport::new(
        "JFK".into(),
        "KJFK".into(),
        "John F. Kennedy International Airport".into(),
        "New York".into(),
        "NY".into(),
        "USA".into(),
    );

    assert_eq!(airport.get_code(), "JFK/KJFK");
}

#[test]
fn get_code_of_empty_codes_is_the_slash() {
    let airport =
        Airport::new("".into(), "".into(), "".into(), "".into(), "".into(), "".into());
    assert_eq!(airport.get_code(), "/");
    let other = Airport::new("北京".into(), "ZBAA".into(), "".into(), "".into(), "".into(), "".into());
    assert_eq!(other.get_code(), "北京/ZBAA");
}
