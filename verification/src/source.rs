//! Sources: the instrument series that report for a station.

use crate::coord::{coordinate_value, parse_coordinate};
use crate::number::{parse_i32, parse_usize, signed_value, unsigned_value};
use crate::text::{fields_of_line, split_fields};
use vstd::prelude::*;

verus! {

/// One series of measurements of one element at one station.
#[derive(Debug, PartialEq, Eq)]
pub struct Source {
    pub station_id: usize,
    pub source_id: usize,
    pub source_name: String,
    pub country_code: String,
    pub latitude_arcsec: i64,
    pub longitude_arcsec: i64,
    pub elevation_meters: i32,
    /// Numeric suffix of the element code: `TX2` gives 2.
    pub element_identifier: usize,
    pub start_period: usize,
    pub stop_period: usize,
}

/// What a [`Source`] holds, as mathematical values.
pub struct SourceView {
    pub station_id: nat,
    pub source_id: nat,
    pub source_name: Seq<char>,
    pub country_code: Seq<char>,
    pub latitude_arcsec: int,
    pub longitude_arcsec: int,
    pub elevation_meters: int,
    pub element_identifier: nat,
    pub start_period: nat,
    pub stop_period: nat,
}

impl View for Source {
    type V = SourceView;

    open spec fn view(&self) -> SourceView {
        SourceView {
            station_id: self.station_id as nat,
            source_id: self.source_id as nat,
            source_name: self.source_name@,
            country_code: self.country_code@,
            latitude_arcsec: self.latitude_arcsec as int,
            longitude_arcsec: self.longitude_arcsec as int,
            elevation_meters: self.elevation_meters as int,
            element_identifier: self.element_identifier as nat,
            start_period: self.start_period as nat,
            stop_period: self.stop_period as nat,
        }
    }
}

impl Clone for Source {
    fn clone(&self) -> (copy: Self)
        ensures
            copy == *self,
    {
        Source {
            station_id: self.station_id,
            source_id: self.source_id,
            source_name: self.source_name.clone(),
            country_code: self.country_code.clone(),
            latitude_arcsec: self.latitude_arcsec,
            longitude_arcsec: self.longitude_arcsec,
            elevation_meters: self.elevation_meters,
            element_identifier: self.element_identifier,
            start_period: self.start_period,
            stop_period: self.stop_period,
        }
    }
}

impl DeepView for Source {
    type V = SourceView;

    open spec fn deep_view(&self) -> SourceView {
        self@
    }
}

/// The element identifier that an element code carries: the number that
/// follows its first two characters.
pub open spec fn element_identifier_of(code: Seq<char>) -> Option<nat> {
    if code.len() < 2 {
        None
    } else {
        unsigned_value(code.skip(2), usize::MAX as nat)
    }
}

/// The source that the fields of one line describe.
///
/// There are at least ten fields: station id, source id, source name,
/// country code, latitude, longitude, elevation, element code, start and
/// stop period; further fields are ignored. Names are taken as they are, and
/// only the coordinates may carry white space. The fields describe no source
/// when there are fewer, when a numeric field is no number, when a
/// coordinate does not denote a value, or when the element code carries no
/// identifier.
pub open spec fn source_of_fields(fields: Seq<Seq<char>>) -> Option<SourceView> {
    if fields.len() < 10 {
        None
    } else {
        let station_id = unsigned_value(fields[0], usize::MAX as nat);
        let source_id = unsigned_value(fields[1], usize::MAX as nat);
        let latitude = coordinate_value(fields[4]);
        let longitude = coordinate_value(fields[5]);
        let elevation = signed_value(fields[6], i32::MIN as int, i32::MAX as int);
        let element = element_identifier_of(fields[7]);
        let start = unsigned_value(fields[8], usize::MAX as nat);
        let stop = unsigned_value(fields[9], usize::MAX as nat);
        if station_id is Some && source_id is Some && latitude is Some && longitude is Some
            && elevation is Some && element is Some && start is Some && stop is Some {
            Some(
                SourceView {
                    station_id: station_id->0,
                    source_id: source_id->0,
                    source_name: fields[2],
                    country_code: fields[3],
                    latitude_arcsec: latitude->0,
                    longitude_arcsec: longitude->0,
                    elevation_meters: elevation->0,
                    element_identifier: element->0,
                    start_period: start->0,
                    stop_period: stop->0,
                },
            )
        } else {
            None
        }
    }
}

/// The source that one line of the sources file describes.
pub open spec fn source_of_line(line: Seq<char>) -> Option<SourceView> {
    source_of_fields(fields_of_line(line))
}

/// Reads the identifier that follows the two-letter prefix of an element
/// code.
pub fn parse_element_identifier(code: &str) -> (id: Option<usize>)
    ensures
        match id {
            Some(v) => element_identifier_of(code@) == Some(v as nat),
            None => element_identifier_of(code@) is None,
        },
{
    let len: usize = code.unicode_len();
    if len < 2 {
        return None;
    }
    let suffix = code.substring_char(2, len);
    assert(suffix@ =~= code@.skip(2));
    parse_usize(suffix)
}

/// Builds a source from the fields of one line.
pub fn from_raw_values_to_sources(v: &[String]) -> (source: Option<Source>)
    ensures
        source.deep_view() == source_of_fields(v.deep_view()),
{
    if v.len() < 10 {
        return None;
    }
    assert forall|j: int| 0 <= j < 10 implies v.deep_view()[j] == (#[trigger] v[j])@ by {}
    let latitude: i64 = parse_coordinate(v[4].as_str())?;
    let longitude: i64 = parse_coordinate(v[5].as_str())?;
    let station_id: usize = parse_usize(v[0].as_str())?;
    let source_id: usize = parse_usize(v[1].as_str())?;
    let elevation: i32 = parse_i32(v[6].as_str())?;
    let element: usize = parse_element_identifier(v[7].as_str())?;
    let start: usize = parse_usize(v[8].as_str())?;
    let stop: usize = parse_usize(v[9].as_str())?;
    Some(
        Source {
            station_id,
            source_id,
            source_name: v[2].clone(),
            country_code: v[3].clone(),
            latitude_arcsec: latitude,
            longitude_arcsec: longitude,
            elevation_meters: elevation,
            element_identifier: element,
            start_period: start,
            stop_period: stop,
        },
    )
}

/// Reads one line of the sources file.
pub fn line_to_source(line: &str) -> (source: Option<Source>)
    ensures
        source.deep_view() == source_of_line(line@),
{
    let fields = split_fields(line);
    from_raw_values_to_sources(fields.as_slice())
}

} // verus!
