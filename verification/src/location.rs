//! Location records returned by the geographic search index.
//!
//! The index stores coordinates as a `[longitude, latitude]` pair and a
//! one-letter feature-class code; decoding a hit swaps the pair into named
//! fields and turns the code into a closed enum.  Coordinates are carried
//! as signed micro-degrees so that the decoding logic works on plain
//! integers.

use vstd::prelude::*;

verus! {

/// Category of a geographic feature, decoded from the one-letter code the
/// index stores.
#[derive(Debug, Clone, PartialEq, Eq, Structural)]
pub enum FeatureClass {
    City,
    Area,
    WaterBody,
    Region,
    Road,
    Spot,
    Hill,
    Undersea,
    Forest,
}

/// The category a one-letter code stands for; anything but the nine known
/// single-letter codes (the empty string included) stands for no category.
pub open spec fn feature_class_of(s: Seq<char>) -> Option<FeatureClass> {
    if s.len() == 1 {
        if s[0] == 'A' {
            Some(FeatureClass::Region)
        } else if s[0] == 'H' {
            Some(FeatureClass::WaterBody)
        } else if s[0] == 'L' {
            Some(FeatureClass::Area)
        } else if s[0] == 'P' {
            Some(FeatureClass::City)
        } else if s[0] == 'R' {
            Some(FeatureClass::Road)
        } else if s[0] == 'S' {
            Some(FeatureClass::Spot)
        } else if s[0] == 'T' {
            Some(FeatureClass::Hill)
        } else if s[0] == 'U' {
            Some(FeatureClass::Undersea)
        } else if s[0] == 'V' {
            Some(FeatureClass::Forest)
        } else {
            None
        }
    } else {
        None
    }
}

impl FeatureClass {
    /// Decodes a one-letter feature-class code; any other string, the empty
    /// string included, yields `None`.
    pub fn from_str(s: &str) -> (r: Option<FeatureClass>)
        ensures
            r == feature_class_of(s@),
    {
        if s.unicode_len() == 1 {
            let c = s.get_char(0);
            match c {
                'A' => Some(FeatureClass::Region),
                'H' => Some(FeatureClass::WaterBody),
                'L' => Some(FeatureClass::Area),
                'P' => Some(FeatureClass::City),
                'R' => Some(FeatureClass::Road),
                'S' => Some(FeatureClass::Spot),
                'T' => Some(FeatureClass::Hill),
                'U' => Some(FeatureClass::Undersea),
                'V' => Some(FeatureClass::Forest),
                _ => None,
            }
        } else {
            None
        }
    }
}

/// A named place, with its coordinate in signed micro-degrees.
#[derive(Debug, Clone)]
pub struct Location {
    pub name: String,
    pub lat: i64,
    pub lon: i64,
    pub country: String,
}

/// One record of the response sent back for a location search, built from
/// an index hit.  Coordinates are signed micro-degrees.
#[derive(Debug, Clone)]
pub struct LocationResponse {
    pub id: String,
    pub name: String,
    pub ascii_name: String,
    pub latitude: i64,
    pub longitude: i64,
    pub feature_code: String,
    pub country_code: String,
    pub admin1: Option<String>,
    pub admin2: Option<String>,
    pub feature_class: Option<FeatureClass>,
    pub population: Option<i64>,
    pub elevation: Option<i64>,
    pub timezone: String,
    pub modification_date: String,
}

/// The stored fields of one index hit, as plain values.  `location` holds
/// the coordinate pair in the stored order: longitude first, latitude
/// last, in signed micro-degrees.
#[derive(Debug, Clone)]
pub struct LocationSource {
    pub name: String,
    pub ascii_name: String,
    pub location: Vec<i64>,
    pub feature_class: String,
    pub feature_code: String,
    pub country_code: String,
    pub admin1: Option<String>,
    pub admin2: Option<String>,
    pub population: Option<i64>,
    pub elevation: Option<i64>,
    pub timezone: String,
    pub modification_date: String,
}

impl LocationResponse {
    /// Builds a response record from a hit's identifier and stored fields.
    /// The stored coordinate pair is `[longitude, latitude]`: its first
    /// entry becomes the longitude, its last the latitude.  A record whose
    /// coordinate pair is empty is malformed and yields `None`.
    pub fn from_source_with_id(id: &str, source: LocationSource) -> (r: Option<LocationResponse>)
        ensures
            r is Some <==> source.location@.len() >= 1,
            r matches Some(out) ==> {
                &&& out.id@ == id@
                &&& out.name == source.name
                &&& out.ascii_name == source.ascii_name
                &&& out.longitude == source.location@[0]
                &&& out.latitude == source.location@[source.location@.len() - 1]
                &&& out.feature_class == feature_class_of(source.feature_class@)
                &&& out.feature_code == source.feature_code
                &&& out.country_code == source.country_code
                &&& out.admin1 == source.admin1
                &&& out.admin2 == source.admin2
                &&& out.population == source.population
                &&& out.elevation == source.elevation
                &&& out.timezone == source.timezone
                &&& out.modification_date == source.modification_date
            },
    {
        if source.location.len() == 0 {
            return None;
        }
        let longitude = source.location[0];
        let latitude = source.location[source.location.len() - 1];
        let feature_class = FeatureClass::from_str(source.feature_class.as_str());
        Some(LocationResponse {
            id: String::from_str(id),
            name: source.name,
            ascii_name: source.ascii_name,
            latitude,
            longitude,
            feature_code: source.feature_code,
            country_code: source.country_code,
            admin1: source.admin1,
            admin2: source.admin2,
            feature_class,
            population: source.population,
            elevation: source.elevation,
            timezone: source.timezone,
            modification_date: source.modification_date,
        })
    }
}

/// A location search request: the free text to match.
pub struct SearchQuery {
    pub query: String,
}

/// Fixed addresses of the external collaborators, created once at startup
/// and shared read-only by every request.
pub struct DBConnections {
    pub es: String,
}

} // verus!
