use aviation::domain::airline::Airline;

#[test]
fn test_airline_creation() {
    let airline = Airline::new(
        "AA".into(),
        "American Airlines".into(),
        "American".into(),
        "American Airlines".into(),
        "United States".into(),
        "Oneworld".into(),
        "AAdvantage".into(),
        "001".into(),
    );

    assert_eq!(airline.get_code(), "AA");
    assert_eq!(airline.get_identifier(), "American Airlines");
    assert_eq!(airline.get_call_sign(), "American");
    assert_eq!(airline.get_name(), "American Airlines");
    assert_eq!(airline.get_country(), "United States");
    assert_eq!(airline.get_alliance(), "Oneworld");
    assert_eq!(airline.get_frequent_flyer_program(), "AAdvantage");
    assert_eq!(airline.get_etkt_prefix(), "001");
}

#[test]
fn airline_getters_tell_the_fields_apart() {
    let airline = Airline::new(
        "CA".into(),
        "CCA".into(),
        "AIR CHINA".into(),
        "Air China".into(),
        "China".into(),
        "Star Alliance".into(),
        "PhoenixMiles".into(),
        "999".into(),
    );
    let copy = airline.clone();
    assert_eq!(copy.get_code(), "CA");
    assert_eq!(copy.get_identifier(), "CCA");
    assert_eq!(copy.get_call_sign(), "AIR CHINA");
    assert_eq!(copy.get_name(), "Air China");
    assert_eq!(copy.get_country(), "China");
    assert_eq!(copy.get_alliance(), "Star Alliance");
    assert_eq!(copy.get_frequent_flyer_program(), "PhoenixMiles");
    assert_eq!(copy.get_etkt_prefix(), "999");
}
