use r_flightsim::tle::tle_fields;

const ISS_TLE: &str = "\
ISS (ZARYA)
1 25544U 98067A   25045.18141127  .00021057  00000-0  37436-3 0  9991
2 25544  51.6388 294.8370 0002488  28.3578 331.7655 15.50110572495730";

#[test]
fn test_parse_tle() {
    let f = tle_fields(ISS_TLE).expect("should parse ISS TLE");
    let inclination_deg: f64 = f.inclination.parse().unwrap();
    let raan_deg: f64 = f.raan.parse().unwrap();
    let eccentricity: f64 = f.eccentricity.parse().unwrap();
    let arg_periapsis_deg: f64 = f.arg_periapsis.parse().unwrap();
    let mean_anomaly_deg: f64 = f.mean_anomaly.parse().unwrap();
    let mean_motion: f64 = f.mean_motion.parse().unwrap();
    assert!((inclination_deg - 51.6388).abs() < 0.001);
    assert!((raan_deg - 294.837).abs() < 0.01);
    assert!((eccentricity - 0.0002488).abs() < 1e-7);
    assert!((arg_periapsis_deg - 28.3578).abs() < 0.001);
    assert!((mean_anomaly_deg - 331.7655).abs() < 0.001);
    assert!((mean_motion - 15.50110572).abs() < 0.001);
}

#[test]
fn tle_columns_are_cut_exactly() {
    let f = tle_fields(ISS_TLE).unwrap();
    assert_eq!(f.inclination, "51.6388");
    assert_eq!(f.raan, "294.8370");
    assert_eq!(f.eccentricity, "0.0002488");
    assert_eq!(f.arg_periapsis, "28.3578");
    assert_eq!(f.mean_anomaly, "331.7655");
    assert_eq!(f.mean_motion, "15.50110572");
}

#[test]
fn two_line_form_with_crlf_and_indentation() {
    let text = "  1 25544U 98067A   25045.18141127  .00021057  00000-0  37436-3 0  9991\r\n   2 25544  51.6388 294.8370 0002488  28.3578 331.7655 15.50110572495730\r\n";
    let f = tle_fields(text).unwrap();
    assert_eq!(f.mean_motion, "15.50110572");
}

#[test]
fn missing_or_short_lines_are_rejected() {
    assert!(tle_fields("ISS (ZARYA)\n1 25544U 98067A   25045.18141127  .00021057  00000-0  37436-3 0  9991").is_none());
    assert!(tle_fields("1 25544U\n2 25544  51.6388").is_none());
    assert!(tle_fields("").is_none());
}

#[test]
fn column_cut_inside_a_character_is_rejected() {
    // A two-byte character straddling byte 8 of line 2.
    let text = "1 25544U 98067A   25045.18141127  .00021057  00000-0  37436-3 0  9991\n2 25544é51.6388 294.8370 0002488  28.3578 331.7655 15.50110572495730";
    assert!(tle_fields(text).is_none());
}
