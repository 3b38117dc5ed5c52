use prometheus_http_query::duration::{
    canonical_duration, parse_duration, render_duration, render_durations, sort_durations,
    Duration,
};
use prometheus_http_query::BuilderError;

#[test]
fn round_trip_sorts_by_unit_rank() {
    assert_eq!(canonical_duration("1m30s500ms").unwrap(), "500ms30s1m");
}

#[test]
fn canonical_order_ignores_input_order() {
    assert_eq!(canonical_duration("2d1m").unwrap(), "1m2d");
    assert_eq!(canonical_duration("1m2d").unwrap(), "1m2d");
}

#[test]
fn single_token_round_trips() {
    assert_eq!(canonical_duration("2d").unwrap(), "2d");
    assert_eq!(canonical_duration("0ms").unwrap(), "0ms");
}

#[test]
fn all_seven_units_are_recognized() {
    assert_eq!(
        canonical_duration("1y2w3d4h5m6s7ms").unwrap(),
        "7ms6s5m4h3d2w1y"
    );
}

#[test]
fn equal_units_sort_by_magnitude() {
    assert_eq!(canonical_duration("2s1s").unwrap(), "1s2s");
}

#[test]
fn unknown_suffix_fails() {
    assert!(matches!(
        canonical_duration("10x"),
        Err(BuilderError::InvalidTimeDuration)
    ));
}

#[test]
fn missing_digits_fail() {
    assert!(matches!(
        parse_duration("s"),
        Err(BuilderError::InvalidTimeDuration)
    ));
    assert!(matches!(
        parse_duration("30s500"),
        Err(BuilderError::InvalidTimeDuration)
    ));
}

#[test]
fn oversized_magnitude_fails() {
    assert!(matches!(
        parse_duration("99999999999999999999999999s"),
        Err(BuilderError::InvalidTimeDuration)
    ));
}

#[test]
fn empty_literal_parses_to_no_tokens() {
    assert_eq!(parse_duration("").unwrap(), vec![]);
    assert_eq!(canonical_duration("").unwrap(), "");
}

#[test]
fn ms_suffix_is_checked_before_the_single_letter_suffixes() {
    let tokens = parse_duration("30s500ms").unwrap();
    assert_eq!(
        tokens,
        vec![Duration::Seconds(30), Duration::Milliseconds(500)]
    );
}

#[test]
fn parse_keeps_input_order_and_sort_reorders() {
    let mut tokens = parse_duration("1m30s500ms").unwrap();
    assert_eq!(
        tokens,
        vec![
            Duration::Minutes(1),
            Duration::Seconds(30),
            Duration::Milliseconds(500)
        ]
    );
    sort_durations(&mut tokens);
    assert_eq!(
        tokens,
        vec![
            Duration::Milliseconds(500),
            Duration::Seconds(30),
            Duration::Minutes(1)
        ]
    );
    assert_eq!(render_durations(&tokens), "500ms30s1m");
}

#[test]
fn render_single_durations() {
    assert_eq!(render_duration(&Duration::Milliseconds(500)), "500ms");
    assert_eq!(render_duration(&Duration::Seconds(0)), "0s");
    assert_eq!(render_duration(&Duration::Minutes(90)), "90m");
    assert_eq!(render_duration(&Duration::Hours(24)), "24h");
    assert_eq!(render_duration(&Duration::Days(7)), "7d");
    assert_eq!(render_duration(&Duration::Weeks(52)), "52w");
    assert_eq!(render_duration(&Duration::Years(10)), "10y");
}
