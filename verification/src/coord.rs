//! Geographic coordinates as signed seconds of arc.

use crate::number::{parse_i32, parse_u8, signed_value, unsigned_value};
use crate::text::{pieces, split, trim, trimmed};
use vstd::prelude::*;

verus! {

/// Seconds of arc of a coordinate given as degrees, minutes and seconds.
///
/// Minutes and seconds are magnitudes: they extend the degrees away from
/// zero, so the sign of the whole follows the sign of the degrees. Zero
/// degrees count as positive.
pub open spec fn arcseconds(degrees: int, minutes: int, seconds: int) -> int {
    if degrees >= 0 {
        degrees * 3600 + minutes * 60 + seconds
    } else {
        degrees * 3600 - minutes * 60 - seconds
    }
}

/// Magnitude of an integer.
pub open spec fn magnitude(x: int) -> int {
    if x >= 0 {
        x
    } else {
        -x
    }
}

/// Converts a `(degrees, minutes, seconds)` triple to seconds of arc.
pub fn coord_tuple_to_secs(t: (i32, u8, u8)) -> (secs: i64)
    ensures
        secs == arcseconds(t.0 as int, t.1 as int, t.2 as int),
{
    let degrees: i64 = t.0 as i64;
    let minutes: i64 = t.1 as i64;
    let seconds: i64 = t.2 as i64;
    if degrees >= 0 {
        degrees * 3600 + minutes * 60 + seconds
    } else {
        degrees * 3600 - minutes * 60 - seconds
    }
}

/// The arcsecond value that a coordinate field denotes.
///
/// The field, once trimmed, holds exactly three parts separated by `:`:
/// signed degrees, then minutes and seconds, each of `0..=255`. A sign
/// before zero degrees is lost with the number it belongs to. A field of any
/// other shape denotes nothing.
pub open spec fn coordinate_value(field: Seq<char>) -> Option<int> {
    let parts = pieces(trimmed(field), ':');
    if parts.len() != 3 {
        None
    } else {
        let degrees = signed_value(parts[0], i32::MIN as int, i32::MAX as int);
        let minutes = unsigned_value(parts[1], u8::MAX as nat);
        let seconds = unsigned_value(parts[2], u8::MAX as nat);
        if degrees is Some && minutes is Some && seconds is Some {
            Some(arcseconds(degrees->0, minutes->0 as int, seconds->0 as int))
        } else {
            None
        }
    }
}

/// Reads a coordinate field of the form `degrees:minutes:seconds` as seconds
/// of arc.
pub fn parse_coordinate(field: &str) -> (secs: Option<i64>)
    ensures
        match secs {
            Some(v) => coordinate_value(field@) == Some(v as int),
            None => coordinate_value(field@) is None,
        },
{
    let parts = split(trim(field), ':');
    if parts.len() != 3 {
        return None;
    }
    assert(parts.deep_view()[0] == parts[0]@);
    assert(parts.deep_view()[1] == parts[1]@);
    assert(parts.deep_view()[2] == parts[2]@);
    let degrees: i32 = parse_i32(parts[0])?;
    let minutes: u8 = parse_u8(parts[1])?;
    let seconds: u8 = parse_u8(parts[2])?;
    Some(coord_tuple_to_secs((degrees, minutes, seconds)))
}

/// With minutes and seconds in `0..=59`, the magnitude of the arcsecond value
/// is `|degrees| * 3600 + minutes * 60 + seconds`, and the value is positive
/// for positive degrees, negative for negative degrees, and never negative
/// for zero degrees (zero exactly when minutes and seconds are zero too).
pub proof fn lemma_arcseconds_sign_and_magnitude(degrees: int, minutes: int, seconds: int)
    requires
        0 <= minutes <= 59,
        0 <= seconds <= 59,
    ensures
        magnitude(arcseconds(degrees, minutes, seconds)) == magnitude(degrees) * 3600 + minutes
            * 60 + seconds,
        degrees > 0 ==> arcseconds(degrees, minutes, seconds) > 0,
        degrees < 0 ==> arcseconds(degrees, minutes, seconds) < 0,
        degrees == 0 ==> arcseconds(degrees, minutes, seconds) == minutes * 60 + seconds,
{
}

} // verus!
