use prometheus_http_query::timespec::parse_time_specifier;
use prometheus_http_query::BuilderError;

#[test]
fn integer_timestamp_canonicalizes_to_itself() {
    assert_eq!(parse_time_specifier("1618922012").unwrap(), "1618922012");
}

#[test]
fn numeric_canonicalization_is_not_the_identity() {
    assert_eq!(parse_time_specifier("1e3").unwrap(), "1000.0");
}

#[test]
fn fractional_timestamp_is_accepted() {
    assert_eq!(parse_time_specifier("1618922012.5").unwrap(), "1618922012.5");
}

#[test]
fn rfc3339_with_offset_round_trips() {
    assert_eq!(
        parse_time_specifier("2021-04-20T14:33:32+02:00").unwrap(),
        "2021-04-20T14:33:32+02:00"
    );
}

#[test]
fn rfc3339_zulu_is_normalized_to_an_explicit_offset() {
    assert_eq!(
        parse_time_specifier("2021-04-20T14:33:32Z").unwrap(),
        "2021-04-20T14:33:32+00:00"
    );
}

#[test]
fn a_string_that_is_neither_fails() {
    assert!(matches!(
        parse_time_specifier("yesterday"),
        Err(BuilderError::InvalidTimeSpecifier)
    ));
    assert!(matches!(
        parse_time_specifier(""),
        Err(BuilderError::InvalidTimeSpecifier)
    ));
}
