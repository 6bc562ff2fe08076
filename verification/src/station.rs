//! Stations: fixed observation points with coordinates and elevation.

use crate::coord::{coordinate_value, parse_coordinate};
use crate::number::{parse_i32, parse_usize, signed_value, unsigned_value};
use crate::text::{fields_of_line, split_fields, trim, trimmed};
use vstd::prelude::*;

verus! {

/// A weather station.
#[derive(Debug, PartialEq, Eq)]
pub struct Station {
    pub id: usize,
    pub name: String,
    pub country_code: String,
    pub latitude_arcsec: i64,
    pub longitude_arcsec: i64,
    pub elevation_meters: i32,
}

/// What a [`Station`] holds, as mathematical values.
pub struct StationView {
    pub id: nat,
    pub name: Seq<char>,
    pub country_code: Seq<char>,
    pub latitude_arcsec: int,
    pub longitude_arcsec: int,
    pub elevation_meters: int,
}

impl View for Station {
    type V = StationView;

    open spec fn view(&self) -> StationView {
        StationView {
            id: self.id as nat,
            name: self.name@,
            country_code: self.country_code@,
            latitude_arcsec: self.latitude_arcsec as int,
            longitude_arcsec: self.longitude_arcsec as int,
            elevation_meters: self.elevation_meters as int,
        }
    }
}

impl Clone for Station {
    fn clone(&self) -> (copy: Self)
        ensures
            copy == *self,
    {
        Station {
            id: self.id,
            name: self.name.clone(),
            country_code: self.country_code.clone(),
            latitude_arcsec: self.latitude_arcsec,
            longitude_arcsec: self.longitude_arcsec,
            elevation_meters: self.elevation_meters,
        }
    }
}

impl DeepView for Station {
    type V = StationView;

    open spec fn deep_view(&self) -> StationView {
        self@
    }
}

/// The station that the fields of one line describe.
///
/// There are exactly six fields: id, name, country code, latitude,
/// longitude and elevation. White space around a field is ignored. The
/// fields describe no station when their count differs, when id or elevation
/// is no number, or when a coordinate does not denote a value.
pub open spec fn station_of_fields(fields: Seq<Seq<char>>) -> Option<StationView> {
    if fields.len() != 6 {
        None
    } else {
        let id = unsigned_value(trimmed(fields[0]), usize::MAX as nat);
        let latitude = coordinate_value(fields[3]);
        let longitude = coordinate_value(fields[4]);
        let elevation = signed_value(trimmed(fields[5]), i32::MIN as int, i32::MAX as int);
        if id is Some && latitude is Some && longitude is Some && elevation is Some {
            Some(
                StationView {
                    id: id->0,
                    name: trimmed(fields[1]),
                    country_code: trimmed(fields[2]),
                    latitude_arcsec: latitude->0,
                    longitude_arcsec: longitude->0,
                    elevation_meters: elevation->0,
                },
            )
        } else {
            None
        }
    }
}

/// The station that one line of the stations file describes.
pub open spec fn station_of_line(line: Seq<char>) -> Option<StationView> {
    station_of_fields(fields_of_line(line))
}

/// Builds a station from the fields of one line.
pub fn from_raw_values_to_station(v: &[String]) -> (station: Option<Station>)
    ensures
        station.deep_view() == station_of_fields(v.deep_view()),
{
    if v.len() != 6 {
        return None;
    }
    assert forall|j: int| 0 <= j < 6 implies v.deep_view()[j] == (#[trigger] v[j])@ by {}
    let latitude: i64 = parse_coordinate(v[3].as_str())?;
    let longitude: i64 = parse_coordinate(v[4].as_str())?;
    let id: usize = parse_usize(trim(v[0].as_str()))?;
    let elevation: i32 = parse_i32(trim(v[5].as_str()))?;
    Some(
        Station {
            id,
            name: trim(v[1].as_str()).to_owned(),
            country_code: trim(v[2].as_str()).to_owned(),
            latitude_arcsec: latitude,
            longitude_arcsec: longitude,
            elevation_meters: elevation,
        },
    )
}

/// Reads one line of the stations file.
pub fn line_to_station(line: &str) -> (station: Option<Station>)
    ensures
        station.deep_view() == station_of_line(line@),
{
    let fields = split_fields(line);
    from_raw_values_to_station(fields.as_slice())
}

} // verus!
