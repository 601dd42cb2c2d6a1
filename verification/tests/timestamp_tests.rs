use jobd::timestamp::parse_rfc3339_epoch;

#[test]
fn epoch_instant() {
    assert_eq!(parse_rfc3339_epoch("1970-01-01T00:00:00Z"), Some(0));
}

#[test]
fn known_instants() {
    // The largest 32-bit signed second.
    assert_eq!(parse_rfc3339_epoch("2038-01-19T03:14:07Z"), Some(2147483647));
    // A leap-day afternoon.
    assert_eq!(parse_rfc3339_epoch("2024-02-29T12:30:45Z"), Some(1709209845));
    // Before the epoch.
    assert_eq!(parse_rfc3339_epoch("1969-12-31T23:59:59Z"), Some(-1));
    // The engine's zero value for a container that never ran.
    assert_eq!(parse_rfc3339_epoch("0001-01-01T00:00:00Z"), Some(-62135596800));
}

#[test]
fn numeric_offsets() {
    assert_eq!(parse_rfc3339_epoch("1970-01-01T00:00:00+01:00"), Some(-3600));
    assert_eq!(parse_rfc3339_epoch("1970-01-01T00:00:00-01:30"), Some(5400));
    assert_eq!(parse_rfc3339_epoch("1970-01-01T00:00:00+00:00"), Some(0));
}

#[test]
fn fractional_seconds_are_discarded() {
    assert_eq!(parse_rfc3339_epoch("1970-01-01T00:00:01.5Z"), Some(1));
    assert_eq!(
        parse_rfc3339_epoch("2024-02-29T12:30:45.999999999Z"),
        Some(1709209845)
    );
}

#[test]
fn lower_case_letters_are_accepted() {
    assert_eq!(parse_rfc3339_epoch("2024-02-29t12:30:45z"), Some(1709209845));
}

#[test]
fn leap_second_counts_as_its_minute() {
    assert_eq!(parse_rfc3339_epoch("2016-12-31T23:59:60Z"), Some(1483228799));
}

#[test]
fn invalid_dates_are_rejected() {
    assert_eq!(parse_rfc3339_epoch("2023-02-29T00:00:00Z"), None);
    assert_eq!(parse_rfc3339_epoch("2023-13-01T00:00:00Z"), None);
    assert_eq!(parse_rfc3339_epoch("2023-00-01T00:00:00Z"), None);
    assert_eq!(parse_rfc3339_epoch("2023-01-00T00:00:00Z"), None);
    assert_eq!(parse_rfc3339_epoch("2023-01-32T00:00:00Z"), None);
}

#[test]
fn invalid_times_are_rejected() {
    assert_eq!(parse_rfc3339_epoch("2023-01-01T24:00:00Z"), None);
    assert_eq!(parse_rfc3339_epoch("2023-01-01T00:60:00Z"), None);
    assert_eq!(parse_rfc3339_epoch("2023-01-01T00:00:61Z"), None);
}

#[test]
fn malformed_strings_are_rejected() {
    assert_eq!(parse_rfc3339_epoch(""), None);
    assert_eq!(parse_rfc3339_epoch("2023-01-01"), None);
    assert_eq!(parse_rfc3339_epoch("2023-01-01T00:00:00"), None);
    assert_eq!(parse_rfc3339_epoch("2023-01-01 00:00:00Z"), None);
    assert_eq!(parse_rfc3339_epoch("2023-01-01T00:00:00.Z"), None);
    assert_eq!(parse_rfc3339_epoch("2023-01-01T00:00:00+0100"), None);
    assert_eq!(parse_rfc3339_epoch("2023-01-01T00:00:00+24:00"), None);
    assert_eq!(parse_rfc3339_epoch("2023-01-01T00:00:00+01:60"), None);
    assert_eq!(parse_rfc3339_epoch("2023-01-01T00:00:00Zx"), None);
    assert_eq!(parse_rfc3339_epoch("202A-01-01T00:00:00Z"), None);
}

#[test]
fn leap_year_rules() {
    // A century year that is not a leap year, and one that is.
    assert_eq!(parse_rfc3339_epoch("1900-02-29T00:00:00Z"), None);
    assert_eq!(parse_rfc3339_epoch("2000-02-29T00:00:00Z"), Some(951782400));
}
