use climate_records::source::{
    from_raw_values_to_sources, line_to_source, parse_element_identifier, Source,
};

fn fields(values: &[&str]) -> Vec<String> {
    values.iter().map(|v| v.to_string()).collect()
}

const LINE: &str = "     1, 35382,VAEXJOE                                 ,SE,+56:52:00,+014:48:00, 166,TX4       ,18600101,20041231,    13,Air Temperature  ";

#[test]
fn source_line_is_accepted() {
    assert_eq!(
        line_to_source(LINE),
        Some(Source {
            station_id: 1,
            source_id: 35382,
            source_name: "VAEXJOE".to_string(),
            country_code: "SE".to_string(),
            latitude_arcsec: 56 * 3600 + 52 * 60,
            longitude_arcsec: 14 * 3600 + 48 * 60,
            elevation_meters: 166,
            element_identifier: 4,
            start_period: 18600101,
            stop_period: 20041231,
        })
    );
}

#[test]
fn source_takes_ten_fields_and_ignores_the_rest() {
    let ten = fields(&["1", "2", "NAME", "SE", "+56:52:00", "+014:48:00", "166", "TX2", "3", "4"]);
    let source = from_raw_values_to_sources(&ten).unwrap();
    assert_eq!(source.element_identifier, 2);
    assert_eq!(source.start_period, 3);
    assert_eq!(source.stop_period, 4);
    let twelve = fields(&[
        "1", "2", "NAME", "SE", "+56:52:00", "+014:48:00", "166", "TX2", "3", "4", "junk", "",
    ]);
    assert_eq!(from_raw_values_to_sources(&twelve), Some(source));
}

#[test]
fn source_needs_at_least_ten_fields() {
    let nine = fields(&["1", "2", "NAME", "SE", "+56:52:00", "+014:48:00", "166", "TX2", "3"]);
    assert_eq!(from_raw_values_to_sources(&nine), None);
    let four = fields(&["1", "2", "NAME", "SE"]);
    assert_eq!(from_raw_values_to_sources(&four), None);
    assert_eq!(from_raw_values_to_sources(&[]), None);
    assert_eq!(line_to_source(""), None);
    assert_eq!(line_to_source("STAID, SOUID,SOUNAME,CN,LAT,LON,HGHT,ELEI,START,STOP,PARID,PARNAME"), None);
}

#[test]
fn source_names_are_taken_as_they_are() {
    let v = fields(&["1", "2", " NAME ", " SE", " +56:52:00 ", "+014:48:00", "166", "TX2", "3", "4"]);
    let source = from_raw_values_to_sources(&v).unwrap();
    assert_eq!(source.source_name, " NAME ");
    assert_eq!(source.country_code, " SE");
    assert_eq!(source.latitude_arcsec, 56 * 3600 + 52 * 60);
}

#[test]
fn source_numbers_must_come_trimmed() {
    let base = ["1", "2", "NAME", "SE", "+56:52:00", "+014:48:00", "166", "TX2", "3", "4"];
    for at in [0usize, 1, 6, 7, 8, 9] {
        let mut v = fields(&base);
        v[at] = format!(" {}", base[at]);
        assert_eq!(from_raw_values_to_sources(&v), None, "field {}", at);
    }
}

#[test]
fn source_needs_numbers_where_numbers_belong() {
    let base = ["1", "2", "NAME", "SE", "+56:52:00", "+014:48:00", "166", "TX2", "3", "4"];
    for at in [0usize, 1, 4, 5, 6, 7, 8, 9] {
        let mut v = fields(&base);
        v[at] = "x".to_string();
        assert_eq!(from_raw_values_to_sources(&v), None, "field {}", at);
    }
    let mut v = fields(&base);
    v[6] = "-166".to_string();
    assert_eq!(from_raw_values_to_sources(&v).unwrap().elevation_meters, -166);
    let mut v = fields(&base);
    v[0] = "-1".to_string();
    assert_eq!(from_raw_values_to_sources(&v), None);
}

#[test]
fn element_identifier_follows_two_characters() {
    assert_eq!(parse_element_identifier("TX2"), Some(2));
    assert_eq!(parse_element_identifier("TX12"), Some(12));
    assert_eq!(parse_element_identifier("FX012"), Some(12));
    assert_eq!(parse_element_identifier("\u{e9}\u{e9}7"), Some(7));
    assert_eq!(parse_element_identifier("XX+3"), Some(3));
}

#[test]
fn element_identifier_can_be_missing() {
    assert_eq!(parse_element_identifier(""), None);
    assert_eq!(parse_element_identifier("T"), None);
    assert_eq!(parse_element_identifier("TX"), None);
    assert_eq!(parse_element_identifier("TXa"), None);
    assert_eq!(parse_element_identifier("TX2 "), None);
    assert_eq!(parse_element_identifier("TX-2"), None);
    assert_eq!(parse_element_identifier("2"), None);
}

#[test]
fn source_clone_is_equal() {
    let source = line_to_source(LINE).unwrap();
    assert_eq!(source.clone(), source);
}
