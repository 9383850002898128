//! An airline, as the records of a flight name it.

use vstd::prelude::*;

verus! {

/// An airline. The fields are set when it is made and read through the getters.
#[derive(Debug, Clone)]
pub struct Airline {
    /// The two-character code.
    code: String,
    /// The three-character code.
    identifier: String,
    call_sign: String,
    name: String,
    country: String,
    /// The alliance the airline belongs to, such as Oneworld, Star Alliance or SkyTeam.
    alliance: String,
    frequent_flyer_program: String,
    etkt_prefix: String,
}

/// What an [`Airline`] holds, each text as its sequence of characters.
pub struct AirlineView {
    pub code: Seq<char>,
    pub identifier: Seq<char>,
    pub call_sign: Seq<char>,
    pub name: Seq<char>,
    pub country: Seq<char>,
    pub alliance: Seq<char>,
    pub frequent_flyer_program: Seq<char>,
    pub etkt_prefix: Seq<char>,
}

impl View for Airline {
    type V = AirlineView;

    closed spec fn view(&self) -> AirlineView {
        AirlineView {
            code: self.code@,
            identifier: self.identifier@,
            call_sign: self.call_sign@,
            name: self.name@,
            country: self.country@,
            alliance: self.alliance@,
            frequent_flyer_program: self.frequent_flyer_program@,
            etkt_prefix: self.etkt_prefix@,
        }
    }
}

impl Airline {
    pub fn new(
        code: String,
        identifier: String,
        call_sign: String,
        name: String,
        country: String,
        alliance: String,
        frequent_flyer_program: String,
        etkt_prefix: String,
    ) -> (r: Self)
        ensures
            r@ == (AirlineView {
                code: code@,
                identifier: identifier@,
                call_sign: call_sign@,
                name: name@,
                country: country@,
                alliance: alliance@,
                frequent_flyer_program: frequent_flyer_program@,
                etkt_prefix: etkt_prefix@,
            }),
    {
        Airline {
            code,
            identifier,
            call_sign,
            name,
            country,
            alliance,
            frequent_flyer_program,
            etkt_prefix,
        }
    }

    pub fn get_code(&self) -> (r: &str)
        ensures
            r@ == self@.code,
    {
        self.code.as_str()
    }

    pub fn get_identifier(&self) -> (r: &str)
        ensures
            r@ == self@.identifier,
    {
        self.identifier.as_str()
    }

    pub fn get_call_sign(&self) -> (r: &str)
        ensures
            r@ == self@.call_sign,
    {
        self.call_sign.as_str()
    }

    pub fn get_name(&self) -> (r: &str)
        ensures
            r@ == self@.name,
    {
        self.name.as_str()
    }

    pub fn get_country(&self) -> (r: &str)
        ensures
            r@ == self@.country,
    {
        self.country.as_str()
    }

    pub fn get_alliance(&self) -> (r: &str)
        ensures
            r@ == self@.alliance,
    {
        self.alliance.as_str()
    }

    pub fn get_frequent_flyer_program(&self) -> (r: &str)
        ensures
            r@ == self@.frequent_flyer_program,
    {
        self.frequent_flyer_program.as_str()
    }

    pub fn get_etkt_prefix(&self) -> (r: &str)
        ensures
            r@ == self@.etkt_prefix,
    {
        self.etkt_prefix.as_str()
    }
}

} // verus!
