//! Parsing and reduction of climate-observation records.
//!
//! The dataset consists of comma-delimited text files describing stations,
//! per-station sources and dated temperature observations. This crate turns
//! single lines of those files into typed records, leaving out malformed
//! lines, and resolves the preferred source of every station.
//!
//! - [`coord`]: coordinates as signed seconds of arc.
//! - [`text`] and [`number`]: fields, white space and decimal numbers.
//! - [`station`], [`source`] and [`entry`]: one record from one line.
//! - [`reader`]: the records of a sequence of lines.
//! - [`resolve`]: the preferred source of every station.

pub mod coord;
pub mod entry;
pub mod number;
pub mod reader;
pub mod resolve;
pub mod source;
pub mod station;
pub mod text;

pub use crate::coord::coord_tuple_to_secs;
pub use crate::entry::{line_to_entry, Entry};
pub use crate::reader::{read_entries, read_sources, read_stations};
pub use crate::resolve::{resolve_sources, SourceResolver};
pub use crate::source::{from_raw_values_to_sources, line_to_source, Source};
pub use crate::station::{from_raw_values_to_station, line_to_station, Station};
