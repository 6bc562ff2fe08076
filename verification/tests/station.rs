use climate_records::station::{from_raw_values_to_station, line_to_station, Station};

fn fields(values: &[&str]) -> Vec<String> {
    values.iter().map(|v| v.to_string()).collect()
}

#[test]
fn de_bilt_station_line_is_accepted() {
    let station = line_to_station("1, DE BILT         ,NL,+52:06:00,+005:10:00,  2");
    assert_eq!(
        station,
        Some(Station {
            id: 1,
            name: "DE BILT".to_string(),
            country_code: "NL".to_string(),
            latitude_arcsec: 187560,
            longitude_arcsec: 18600,
            elevation_meters: 2,
        })
    );
    let station = station.unwrap();
    assert_eq!(station.latitude_arcsec, 52 * 3600 + 6 * 60 + 0);
    assert_eq!(station.longitude_arcsec, 5 * 3600 + 10 * 60 + 0);
}

#[test]
fn station_fields_are_trimmed_by_the_parser() {
    let v = fields(&[" 7 ", "  OSLO ", " NO ", " +59:56:34 ", " +010:43:15 ", " 94 "]);
    let station = from_raw_values_to_station(&v).unwrap();
    assert_eq!(station.id, 7);
    assert_eq!(station.name, "OSLO");
    assert_eq!(station.country_code, "NO");
    assert_eq!(station.latitude_arcsec, 59 * 3600 + 56 * 60 + 34);
    assert_eq!(station.longitude_arcsec, 10 * 3600 + 43 * 60 + 15);
    assert_eq!(station.elevation_meters, 94);
}

#[test]
fn station_south_west_below_sea_level() {
    let v = fields(&["42", "SOMEWHERE", "XX", "-33:55:30", "-070:40:10", "-12"]);
    let station = from_raw_values_to_station(&v).unwrap();
    assert_eq!(station.latitude_arcsec, -(33 * 3600 + 55 * 60 + 30));
    assert_eq!(station.longitude_arcsec, -(70 * 3600 + 40 * 60 + 10));
    assert_eq!(station.elevation_meters, -12);
}

#[test]
fn station_needs_exactly_six_fields() {
    let five = fields(&["1", "DE BILT", "NL", "+52:06:00", "+005:10:00"]);
    assert_eq!(from_raw_values_to_station(&five), None);
    let seven = fields(&["1", "DE BILT", "NL", "+52:06:00", "+005:10:00", "2", "x"]);
    assert_eq!(from_raw_values_to_station(&seven), None);
    assert_eq!(from_raw_values_to_station(&[]), None);
    assert_eq!(line_to_station(""), None);
    assert_eq!(line_to_station("1, DE BILT,NL,+52:06:00,+005:10:00,2,"), None);
}

#[test]
fn station_needs_numbers_where_numbers_belong() {
    let bad_id = fields(&["x1", "DE BILT", "NL", "+52:06:00", "+005:10:00", "2"]);
    assert_eq!(from_raw_values_to_station(&bad_id), None);
    let negative_id = fields(&["-1", "DE BILT", "NL", "+52:06:00", "+005:10:00", "2"]);
    assert_eq!(from_raw_values_to_station(&negative_id), None);
    let empty_id = fields(&["", "DE BILT", "NL", "+52:06:00", "+005:10:00", "2"]);
    assert_eq!(from_raw_values_to_station(&empty_id), None);
    let bad_height = fields(&["1", "DE BILT", "NL", "+52:06:00", "+005:10:00", "2m"]);
    assert_eq!(from_raw_values_to_station(&bad_height), None);
    let huge_height = fields(&["1", "DE BILT", "NL", "+52:06:00", "+005:10:00", "2147483648"]);
    assert_eq!(from_raw_values_to_station(&huge_height), None);
}

#[test]
fn station_needs_three_part_coordinates() {
    let two_parts = fields(&["1", "DE BILT", "NL", "+52:06", "+005:10:00", "2"]);
    assert_eq!(from_raw_values_to_station(&two_parts), None);
    let four_parts = fields(&["1", "DE BILT", "NL", "+52:06:00", "+005:10:00:00", "2"]);
    assert_eq!(from_raw_values_to_station(&four_parts), None);
    let not_numeric = fields(&["1", "DE BILT", "NL", "+52:xx:00", "+005:10:00", "2"]);
    assert_eq!(from_raw_values_to_station(&not_numeric), None);
}

#[test]
fn station_header_lines_are_rejected() {
    assert_eq!(line_to_station("STAID,STANAME                                 ,CN,      LAT,       LON,HGHT"), None);
    assert_eq!(line_to_station("EUROPEAN CLIMATE ASSESSMENT & DATASET (ECA&D), file created on 22-03-2021"), None);
}

#[test]
fn station_clone_is_equal() {
    let station = line_to_station("1, DE BILT         ,NL,+52:06:00,+005:10:00,  2").unwrap();
    assert_eq!(station.clone(), station);
}
