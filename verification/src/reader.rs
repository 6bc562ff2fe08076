//! Turning the lines of a file into records.
//!
//! Every line is read on its own. A line that describes no record is left
//! out and has no other effect: the records of the remaining lines come out
//! in the order of their lines.

use crate::entry::{entry_of_line, line_to_entry, Entry};
use crate::source::{line_to_source, source_of_line, Source, SourceView};
use crate::station::{line_to_station, station_of_line, Station, StationView};
use vstd::prelude::*;

verus! {

/// The stations that a sequence of lines describes.
pub open spec fn stations_of_lines(lines: Seq<Seq<char>>) -> Seq<StationView> {
    lines.filter_map(|line: Seq<char>| station_of_line(line))
}

/// The sources that a sequence of lines describes.
pub open spec fn sources_of_lines(lines: Seq<Seq<char>>) -> Seq<SourceView> {
    lines.filter_map(|line: Seq<char>| source_of_line(line))
}

/// The observations that a sequence of lines describes.
pub open spec fn entries_of_lines(lines: Seq<Seq<char>>) -> Seq<Entry> {
    lines.filter_map(|line: Seq<char>| entry_of_line(line))
}

/// Reads the lines of the stations file, leaving out those that describe no
/// station.
pub fn read_stations(lines: &[String]) -> (stations: Vec<Station>)
    ensures
        stations.deep_view() == stations_of_lines(lines.deep_view()),
{
    let ghost all = lines.deep_view();
    let mut stations: Vec<Station> = Vec::new();
    assert(stations.deep_view() =~= stations_of_lines(all.take(0)));
    for i in 0..lines.len()
        invariant
            all == lines.deep_view(),
            stations.deep_view() == stations_of_lines(all.take(i as int)),
    {
        let ghost before = stations.deep_view();
        let station = line_to_station(lines[i].as_str());
        proof {
            assert(all[i as int] == lines[i as int]@);
            all.lemma_filter_map_take_succ(|line: Seq<char>| station_of_line(line), i as int);
        }
        if let Some(station) = station {
            stations.push(station);
            assert(stations.deep_view() =~= before + seq![station@]);
        }
    }
    assert(all.take(lines.len() as int) =~= all);
    stations
}

/// Reads the lines of the sources file, leaving out those that describe no
/// source.
pub fn read_sources(lines: &[String]) -> (sources: Vec<Source>)
    ensures
        sources.deep_view() == sources_of_lines(lines.deep_view()),
{
    let ghost all = lines.deep_view();
    let mut sources: Vec<Source> = Vec::new();
    assert(sources.deep_view() =~= sources_of_lines(all.take(0)));
    for i in 0..lines.len()
        invariant
            all == lines.deep_view(),
            sources.deep_view() == sources_of_lines(all.take(i as int)),
    {
        let ghost before = sources.deep_view();
        let source = line_to_source(lines[i].as_str());
        proof {
            assert(all[i as int] == lines[i as int]@);
            all.lemma_filter_map_take_succ(|line: Seq<char>| source_of_line(line), i as int);
        }
        if let Some(source) = source {
            sources.push(source);
            assert(sources.deep_view() =~= before + seq![source@]);
        }
    }
    assert(all.take(lines.len() as int) =~= all);
    sources
}

/// Reads the lines of an observation file, leaving out those that describe
/// no observation.
pub fn read_entries(lines: &[String]) -> (entries: Vec<Entry>)
    ensures
        entries@ == entries_of_lines(lines.deep_view()),
{
    let ghost all = lines.deep_view();
    let mut entries: Vec<Entry> = Vec::new();
    assert(entries@ =~= entries_of_lines(all.take(0)));
    for i in 0..lines.len()
        invariant
            all == lines.deep_view(),
            entries@ == entries_of_lines(all.take(i as int)),
    {
        let entry = line_to_entry(lines[i].as_str());
        proof {
            assert(all[i as int] == lines[i as int]@);
            all.lemma_filter_map_take_succ(|line: Seq<char>| entry_of_line(line), i as int);
        }
        if let Some(entry) = entry {
            entries.push(entry);
        }
    }
    assert(all.take(lines.len() as int) =~= all);
    entries
}

/// Lines of which none describes a record give no record at all, however
/// many there are.
pub proof fn lemma_no_valid_line_no_record<T>(
    lines: Seq<Seq<char>>,
    parse: spec_fn(Seq<char>) -> Option<T>,
)
    requires
        forall|i: int| 0 <= i < lines.len() ==> parse(#[trigger] lines[i]) is None,
    ensures
        lines.filter_map(parse) == Seq::<T>::empty(),
    decreases lines.len(),
{
    if lines.len() > 0 {
        let front = lines.drop_last();
        assert forall|i: int| 0 <= i < front.len() implies parse(#[trigger] front[i]) is None by {
            assert(front[i] == lines[i]);
        }
        lemma_no_valid_line_no_record(front, parse);
        assert(parse(lines[lines.len() - 1]) is None);
    }
}

/// Where no line describes a station, no station is read.
pub proof fn lemma_no_station_among_malformed_lines(lines: Seq<Seq<char>>)
    requires
        forall|i: int| 0 <= i < lines.len() ==> station_of_line(#[trigger] lines[i]) is None,
    ensures
        stations_of_lines(lines).len() == 0,
{
    lemma_no_valid_line_no_record(lines, |line: Seq<char>| station_of_line(line));
}

/// Where no line describes a source, no source is read.
pub proof fn lemma_no_source_among_malformed_lines(lines: Seq<Seq<char>>)
    requires
        forall|i: int| 0 <= i < lines.len() ==> source_of_line(#[trigger] lines[i]) is None,
    ensures
        sources_of_lines(lines).len() == 0,
{
    lemma_no_valid_line_no_record(lines, |line: Seq<char>| source_of_line(line));
}

/// Where no line describes an observation, no observation is read.
pub proof fn lemma_no_entry_among_malformed_lines(lines: Seq<Seq<char>>)
    requires
        forall|i: int| 0 <= i < lines.len() ==> entry_of_line(#[trigger] lines[i]) is None,
    ensures
        entries_of_lines(lines).len() == 0,
{
    lemma_no_valid_line_no_record(lines, |line: Seq<char>| entry_of_line(line));
}

} // verus!
