//! Observations: dated temperature readings.

use crate::number::{
    lemma_unsigned_value_zero, parse_u16, parse_u32, parse_u8, unsigned_value, writes_zero,
};
use crate::text::{pieces, split, trim, trimmed};
use vstd::prelude::*;

verus! {

/// One accepted temperature reading of one station on one day.
#[derive(Debug, Clone, Copy, PartialEq, Eq)]
pub struct Entry {
    /// Temperature in tenths of a degree Celsius.
    pub temperature_decidegrees: u16,
    pub year: u16,
    pub month: u8,
    pub day: u8,
    pub station_id: u32,
}

/// The observation that one line of an observation file describes.
///
/// The line has exactly five fields between commas: station id, source id,
/// date, temperature and quality; white space around a field is ignored and
/// the source id is not read. The quality is the number zero. The date has
/// exactly eight characters, four for the year and two each for month and
/// day, each group a number on its own; no calendar is consulted. A line of
/// any other shape describes nothing.
pub open spec fn entry_of_line(line: Seq<char>) -> Option<Entry> {
    let parts = pieces(line, ',');
    if parts.len() != 5 {
        None
    } else {
        let date = trimmed(parts[2]);
        let quality = unsigned_value(trimmed(parts[4]), u32::MAX as nat);
        let station_id = unsigned_value(trimmed(parts[0]), u32::MAX as nat);
        let temperature = unsigned_value(trimmed(parts[3]), u16::MAX as nat);
        if quality == Some(0nat) && date.len() == 8 {
            let year = unsigned_value(date.subrange(0, 4), u16::MAX as nat);
            let month = unsigned_value(date.subrange(4, 6), u8::MAX as nat);
            let day = unsigned_value(date.subrange(6, 8), u8::MAX as nat);
            if station_id is Some && temperature is Some && year is Some && month is Some
                && day is Some {
                Some(
                    Entry {
                        temperature_decidegrees: temperature->0 as u16,
                        year: year->0 as u16,
                        month: month->0 as u8,
                        day: day->0 as u8,
                        station_id: station_id->0 as u32,
                    },
                )
            } else {
                None
            }
        } else {
            None
        }
    }
}

/// Reads one line of an observation file.
pub fn line_to_entry(line: &str) -> (entry: Option<Entry>)
    ensures
        entry == entry_of_line(line@),
{
    let parts = split(line, ',');
    if parts.len() != 5 {
        return None;
    }
    assert forall|j: int| 0 <= j < 5 implies parts.deep_view()[j] == (#[trigger] parts[j])@ by {}
    let station_id = trim(parts[0]);
    let date = trim(parts[2]);
    let temperature = trim(parts[3]);
    let quality: u32 = parse_u32(trim(parts[4]))?;
    if quality != 0 {
        return None;
    }
    if date.unicode_len() != 8 {
        return None;
    }
    let year = date.substring_char(0, 4);
    let month = date.substring_char(4, 6);
    let day = date.substring_char(6, 8);
    Some(
        Entry {
            temperature_decidegrees: parse_u16(temperature)?,
            year: parse_u16(year)?,
            month: parse_u8(month)?,
            day: parse_u8(day)?,
            station_id: parse_u32(station_id)?,
        },
    )
}

/// A line is rejected unless its quality field writes zero: whatever else
/// the line holds, any other quality, be it another number, a negative one
/// or no number at all, yields no observation.
pub proof fn lemma_quality_must_be_zero(line: Seq<char>)
    requires
        pieces(line, ',').len() == 5 ==> !writes_zero(trimmed(pieces(line, ',')[4])),
    ensures
        entry_of_line(line) is None,
{
    if pieces(line, ',').len() == 5 {
        lemma_unsigned_value_zero(trimmed(pieces(line, ',')[4]), u32::MAX as nat);
    }
}

} // verus!
