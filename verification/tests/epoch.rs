use r_flightsim::epoch::iso8601_to_unix;

#[test]
fn parses_a_utc_timestamp() {
    assert_eq!(iso8601_to_unix("2024-03-15T12:30:45Z"), Ok(1710505845));
    assert_eq!(iso8601_to_unix("1970-01-01T00:00:00Z"), Ok(0));
    assert_eq!(iso8601_to_unix("2024-02-29T23:59:59Z"), Ok(1709251199));
}

#[test]
fn surrounding_whitespace_is_ignored() {
    assert_eq!(iso8601_to_unix("  2000-01-01T00:00:00Z\n"), Ok(946684800));
}

#[test]
fn too_short_is_rejected() {
    assert_eq!(
        iso8601_to_unix(" 2024-03-15 "),
        Err("Too short: '2024-03-15'".to_string())
    );
}

#[test]
fn bad_fields_are_named() {
    assert_eq!(
        iso8601_to_unix("20x4-03-15T12:30:45Z"),
        Err("Invalid year: '20x4'".to_string())
    );
    assert_eq!(
        iso8601_to_unix("2024-03-15T1a:30:45Z"),
        Err("Invalid hour: '1a'".to_string())
    );
    assert_eq!(
        iso8601_to_unix("2024-03-15T12:30:4 Z"),
        Err("Invalid second: '4 '".to_string())
    );
    assert_eq!(
        iso8601_to_unix("2024-1+-15T12:30:45Z"),
        Err("Invalid month: '1+'".to_string())
    );
}

#[test]
fn out_of_range_dates_are_rejected() {
    assert_eq!(
        iso8601_to_unix("2024-13-15T12:30:45Z"),
        Err("Invalid date: 2024-13-15".to_string())
    );
    assert_eq!(
        iso8601_to_unix("2024-00-32T12:30:45Z"),
        Err("Invalid date: 2024-0-32".to_string())
    );
    assert_eq!(
        iso8601_to_unix("2024--1-01T00:00:00Z"),
        Err("Invalid date: 2024--1-1".to_string())
    );
}

#[test]
fn time_fields_are_not_range_checked() {
    assert_eq!(iso8601_to_unix("2024-03-15T99:00:00Z"), Ok(1710460800 + 99 * 3600));
}

#[test]
fn signed_years_use_truncating_division() {
    // year -1, March: y = -1, m = 0 -> days = -365 + 0 - 0 + 0 + 0 + 0 - 719468
    assert_eq!(iso8601_to_unix("-001-03-01T00:00:00Z"), Ok(-719833 * 86400));
    assert_eq!(iso8601_to_unix("+970-01-01T00:00:00Z").is_ok(), true);
}

#[test]
fn non_ascii_between_fields_is_a_bad_field() {
    // 'é' takes the two bytes 5..7: the month slice is the whole character.
    assert_eq!(
        iso8601_to_unix("2024-é-15T12:30:45Z"),
        Err("Invalid month: 'é'".to_string())
    );
}

#[test]
fn other_shapes_are_rejected() {
    assert_eq!(
        iso8601_to_unix("2000/01/01 12:00:00"),
        Err("Invalid format: '2000/01/01 12:00:00'".to_string())
    );
    assert_eq!(
        iso8601_to_unix("2000-01-01T12:00:00"),
        Err("Invalid format: '2000-01-01T12:00:00'".to_string())
    );
    assert_eq!(
        iso8601_to_unix("2000-01-01 12:00:00Z"),
        Err("Invalid format: '2000-01-01 12:00:00Z'".to_string())
    );
    assert_eq!(
        iso8601_to_unix("2000-01-01T12:00:00Zjunk"),
        Err("Invalid format: '2000-01-01T12:00:00Zjunk'".to_string())
    );
    // The separators fall inside 'é': the text does not have the shape.
    assert_eq!(
        iso8601_to_unix("202é-01-01T00:00:00Z"),
        Err("Invalid format: '202é-01-01T00:00:00Z'".to_string())
    );
}
