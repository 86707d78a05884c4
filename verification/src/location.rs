//! Reverse geocoding: the reading of a city and a country code from the
//! address that the geocoding service returns.

use vstd::prelude::*;
use vstd::string::StringExecFns;

verus! {

/// A field of the address object as the logic reads it: absent, a text, or
/// a value of another kind.
pub enum AddressField {
    Missing,
    Text(String),
    Other,
}

/// The fields of the address object that the logic reads.
pub struct AddressFields {
    pub city: AddressField,
    pub town: AddressField,
    pub village: AddressField,
    pub municipality: AddressField,
    pub country_code: AddressField,
}

/// The word for an unknown place.
pub open spec fn unknown_place() -> Seq<char> {
    "Неизвестно"@
}

/// The text of a present field, or the unknown place for any other value.
pub open spec fn field_text(f: AddressField) -> Seq<char> {
    match f {
        AddressField::Text(s) => s@,
        _ => unknown_place(),
    }
}

/// The city: the first present of city, town, village and municipality,
/// read as text.
pub open spec fn city_of(a: AddressFields) -> Seq<char> {
    if !(a.city is Missing) {
        field_text(a.city)
    } else if !(a.town is Missing) {
        field_text(a.town)
    } else if !(a.village is Missing) {
        field_text(a.village)
    } else if !(a.municipality is Missing) {
        field_text(a.municipality)
    } else {
        unknown_place()
    }
}

/// The place named by a response: its city and country code, or the
/// unknown place twice when the response has no address.
pub open spec fn place_of(address: Option<AddressFields>) -> (Seq<char>, Seq<char>) {
    match address {
        Some(a) => (city_of(a), field_text(a.country_code)),
        None => (unknown_place(), unknown_place()),
    }
}

fn unknown() -> (r: String)
    ensures
        r@ == unknown_place(),
{
    String::from_str("Неизвестно")
}

fn text_of(f: &AddressField) -> (r: String)
    ensures
        r@ == field_text(*f),
{
    match f {
        AddressField::Text(s) => s.clone(),
        _ => unknown(),
    }
}

/// The service that turns coordinates into a city and a country code.
pub struct LocationService {
    pub base_url: &'static str,
}

impl LocationService {
    /// A service that asks the Nominatim reverse-geocoding endpoint.
    pub fn new() -> (s: LocationService)
        ensures
            s.base_url@ == "https://nominatim.openstreetmap.org/reverse"@,
    {
        LocationService { base_url: "https://nominatim.openstreetmap.org/reverse" }
    }

    /// The city and country code named by a response's address.
    pub fn city_and_country_code(&self, address: &Option<AddressFields>) -> (r: (String, String))
        ensures
            (r.0@, r.1@) == place_of(*address),
    {
        match address {
            Some(a) => {
                let city = if !matches!(a.city, AddressField::Missing) {
                    text_of(&a.city)
                } else if !matches!(a.town, AddressField::Missing) {
                    text_of(&a.town)
                } else if !matches!(a.village, AddressField::Missing) {
                    text_of(&a.village)
                } else if !matches!(a.municipality, AddressField::Missing) {
                    text_of(&a.municipality)
                } else {
                    unknown()
                };
                (city, text_of(&a.country_code))
            },
            None => (unknown(), unknown()),
        }
    }
}

} // verus!

verus! {

/// The city read from an address is the first place that it names among
/// city, town, village and municipality, in that order; a field of another
/// kind than text reads as the unknown place, and so does an address that
/// names none of them. The country code is read alone, from its own field.
pub proof fn law_city_is_the_first_named_place(a: AddressFields)
    ensures
        !(a.city is Missing) ==> city_of(a) == field_text(a.city),
        a.city is Missing && !(a.town is Missing) ==> city_of(a) == field_text(a.town),
        a.city is Missing && a.town is Missing && !(a.village is Missing) ==> city_of(a) == field_text(a.village),
        a.city is Missing && a.town is Missing && a.village is Missing && !(a.municipality is Missing) ==> city_of(a)
            == field_text(a.municipality),
        a.city is Missing && a.town is Missing && a.village is Missing && a.municipality is Missing ==> city_of(a)
            == "Неизвестно"@,
        forall|s: String| #[trigger] field_text(AddressField::Text(s)) == s@,
        field_text(AddressField::Missing) == "Неизвестно"@,
        field_text(AddressField::Other) == "Неизвестно"@,
        place_of(Some(a)) == (city_of(a), field_text(a.country_code)),
        place_of(None) == ("Неизвестно"@, "Неизвестно"@),
{
}

} // verus!
