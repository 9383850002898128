//! An airport, as the records of a flight name it.

use vstd::prelude::*;
use vstd::string::StringExecFns;

verus! {

/// An airport. The fields are set when it is made and read through the getters.
#[derive(Debug, Clone)]
pub struct Airport {
    /// The three-character IATA code.
    iata_code: String,
    /// The four-character ICAO code.
    icao_code: String,
    name: String,
    city: String,
    province: String,
    country: String,
}

/// What an [`Airport`] holds, each text as its sequence of characters.
pub struct AirportView {
    pub iata_code: Seq<char>,
    pub icao_code: Seq<char>,
    pub name: Seq<char>,
    pub city: Seq<char>,
    pub province: Seq<char>,
    pub country: Seq<char>,
}

impl AirportView {
    /// Both codes, the IATA code first, with a slash between them.
    pub open spec fn code(self) -> Seq<char> {
        self.iata_code + seq!['/'] + self.icao_code
    }
}

impl View for Airport {
    type V = AirportView;

    closed spec fn view(&self) -> AirportView {
        AirportView {
            iata_code: self.iata_code@,
            icao_code: self.icao_code@,
            name: self.name@,
            city: self.city@,
            province: self.province@,
            country: self.country@,
        }
    }
}

impl Airport {
    pub fn new(
        iata_code: String,
        icao_code: String,
        name: String,
        city: String,
        province: String,
        country: String,
    ) -> (r: Self)
        ensures
            r@ == (AirportView {
                iata_code: iata_code@,
                icao_code: icao_code@,
                name: name@,
                city: city@,
                province: province@,
                country: country@,
            }),
    {
        Airport { iata_code, icao_code, name, city, province, country }
    }

    pub fn get_iata_code(&self) -> (r: &str)
        ensures
            r@ == self@.iata_code,
    {
        self.iata_code.as_str()
    }

    pub fn get_icao_code(&self) -> (r: &str)
        ensures
            r@ == self@.icao_code,
    {
        self.icao_code.as_str()
    }

    pub fn get_name(&self) -> (r: &str)
        ensures
            r@ == self@.name,
    {
        self.name.as_str()
    }

    pub fn get_city(&self) -> (r: &str)
        ensures
            r@ == self@.city,
    {
        self.city.as_str()
    }

    pub fn get_province(&self) -> (r: &str)
        ensures
            r@ == self@.province,
    {
        self.province.as_str()
    }

    pub fn get_country(&self) -> (r: &str)
        ensures
            r@ == self@.country,
    {
        self.country.as_str()
    }

    /// Both codes in one text, such as `JFK/KJFK`.
    pub fn get_code(&self) -> (r: String)
        ensures
            r@ == self@.code(),
    {
        proof {
            reveal_strlit("/");
        }
        let mut text = String::new();
        text.append(self.iata_code.as_str());
        text.append("/");
        text.append(self.icao_code.as_str());
        assert(text@ =~= self@.code());
        text
    }
}

} // verus!
