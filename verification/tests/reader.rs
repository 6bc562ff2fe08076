use climate_records::reader::{read_entries, read_sources, read_stations};
use climate_records::{line_to_entry, line_to_source, line_to_station};

fn lines(values: &[&str]) -> Vec<String> {
    values.iter().map(|v| v.to_string()).collect()
}

#[test]
fn stations_come_out_in_line_order() {
    let input = lines(&[
        "STAID,STANAME                                 ,CN,      LAT,       LON,HGHT",
        "",
        "    1,VAEXJOE                                 ,SE,+56:52:00,+014:48:00, 166",
        "    2,FALUN                                   ,SE,+60:37:00,+015:37:00, 160",
        "broken,line",
        "    3,STENSELE                                ,SE,+65:04:00,+017:09:59, 325",
    ]);
    let stations = read_stations(&input);
    let ids: Vec<usize> = stations.iter().map(|s| s.id).collect();
    assert_eq!(ids, vec![1, 2, 3]);
    assert_eq!(stations[1].name, "FALUN");
    assert_eq!(stations[2].longitude_arcsec, 17 * 3600 + 9 * 60 + 59);
}

#[test]
fn sources_come_out_in_line_order() {
    let input = lines(&[
        "STAID, SOUID,SOUNAME,CN,LAT,LON,HGHT,ELEI,START,STOP,PARID,PARNAME",
        "     1, 35382,VAEXJOE ,SE,+56:52:00,+014:48:00, 166,TX4 ,18600101,20041231, 13,Air",
        "a,b,c,d",
        "     1, 35383,VAEXJOE ,SE,+56:52:00,+014:48:00, 166,TX ,18600101,20041231, 13,Air",
        "     2, 35384,FALUN   ,SE,+60:37:00,+015:37:00, 160,TX1 ,18600101,20041231, 13,Air",
    ]);
    let sources = read_sources(&input);
    let ids: Vec<usize> = sources.iter().map(|s| s.source_id).collect();
    assert_eq!(ids, vec![35382, 35384]);
}

#[test]
fn entries_come_out_in_line_order() {
    let input = lines(&[
        "STAID, SOUID,    DATE,   TX, Q_TX",
        "     1, 35382,18600101,   12,    0",
        "     1, 35382,18600102,-9999,    9",
        "     1, 35382,18600103,   15,    0",
        "     1, 35382,18600104,   15,    1",
    ]);
    let entries = read_entries(&input);
    let days: Vec<u8> = entries.iter().map(|e| e.day).collect();
    assert_eq!(days, vec![1, 3]);
}

#[test]
fn malformed_lines_alone_give_nothing() {
    for n in [0usize, 1, 2, 17, 1000] {
        let input: Vec<String> = (0..n).map(|i| format!("line {} is, no record", i)).collect();
        assert_eq!(read_stations(&input), vec![]);
        assert_eq!(read_sources(&input), vec![]);
        assert_eq!(read_entries(&input), vec![]);
    }
}

#[test]
fn one_bad_line_only_goes_missing() {
    let good = "12345,1,20210315,215,0";
    let with_bad = lines(&[good, "oops", good]);
    let without = lines(&[good, good]);
    assert_eq!(read_entries(&with_bad), read_entries(&without));
}

#[test]
fn reading_lines_is_reading_each_line() {
    let input = lines(&[
        "1, DE BILT         ,NL,+52:06:00,+005:10:00,  2",
        "12345,1,20210315,215,0",
        "1,2,NAME,SE,+56:52:00,+014:48:00,166,TX2,3,4",
        "",
    ]);
    let stations: Vec<_> = input.iter().filter_map(|l| line_to_station(l)).collect();
    let sources: Vec<_> = input.iter().filter_map(|l| line_to_source(l)).collect();
    let entries: Vec<_> = input.iter().filter_map(|l| line_to_entry(l)).collect();
    assert_eq!(read_stations(&input), stations);
    assert_eq!(read_sources(&input), sources);
    assert_eq!(read_entries(&input), entries);
    assert_eq!(stations.len(), 1);
    assert_eq!(sources.len(), 1);
    assert_eq!(entries.len(), 1);
}
