use prometheus_http_query::{BuilderError, InstantQuery};

#[test]
fn reserved_keywords_are_rejected() {
    for keyword in ["bool", "on", "ignoring", "group_left", "group_right"] {
        let result = InstantQuery::builder().metric(keyword);
        assert!(matches!(result, Err(BuilderError::InvalidMetricName)));
    }
}

#[test]
fn non_reserved_metric_is_stored_verbatim() {
    let query = InstantQuery::builder()
        .metric("up")
        .unwrap()
        .build()
        .unwrap();
    assert_eq!(query.query, "up");

    let query = InstantQuery::builder()
        .metric("bool_like_but_not_reserved")
        .unwrap()
        .build()
        .unwrap();
    assert_eq!(query.query, "bool_like_but_not_reserved");
}

#[test]
fn empty_metric_name_is_accepted() {
    let query = InstantQuery::builder().metric("").unwrap().build().unwrap();
    assert_eq!(query.query, "");
}

#[test]
fn build_without_metric_and_labels_fails() {
    let result = InstantQuery::builder().build();
    assert!(matches!(result, Err(BuilderError::IllegalVectorSelector)));
}

#[test]
fn build_with_metric_alone_succeeds() {
    let query = InstantQuery::builder()
        .metric("node_cpu_seconds_total")
        .unwrap()
        .build()
        .unwrap();
    assert_eq!(query.query, "node_cpu_seconds_total");
    assert_eq!(query.time, None);
    assert_eq!(query.timeout, None);
}

#[test]
fn build_with_label_alone_succeeds() {
    let query = InstantQuery::builder()
        .with_label("job", "node")
        .build()
        .unwrap();
    assert_eq!(query.query, "{job=\"node\"}");
}

#[test]
fn label_matchers_preserve_insertion_order() {
    let query = InstantQuery::builder()
        .metric("promhttp_metric_handler_requests_total")
        .unwrap()
        .with_label("code", "200")
        .with_label("method", "GET")
        .build()
        .unwrap();
    assert_eq!(
        query.query,
        "promhttp_metric_handler_requests_total{code=\"200\",method=\"GET\"}"
    );
}

#[test]
fn repeated_label_names_are_kept() {
    let query = InstantQuery::builder()
        .metric("up")
        .unwrap()
        .with_label("code", "400")
        .with_label("code", "500")
        .build()
        .unwrap();
    assert_eq!(query.query, "up{code=\"400\",code=\"500\"}");
}

#[test]
fn all_four_matcher_kinds_render() {
    let query = InstantQuery::builder()
        .metric("up")
        .unwrap()
        .with_label("a", "1")
        .without_label("b", "2")
        .match_label("c", "3|4")
        .no_match_label("d", "5.*")
        .build()
        .unwrap();
    assert_eq!(
        query.query,
        "up{a=\"1\",b!=\"2\",c=~\"3|4\",d!~\"5.*\"}"
    );
}

#[test]
fn no_match_label_on_empty_sequence_seeds_a_regex_matcher() {
    let query = InstantQuery::builder()
        .no_match_label("code", "4..")
        .build()
        .unwrap();
    assert_eq!(query.query, "{code=~\"4..\"}");
}

#[test]
fn timeout_is_canonicalized_by_unit_rank() {
    let query = InstantQuery::builder()
        .metric("up")
        .unwrap()
        .timeout("1m30s500ms")
        .unwrap()
        .build()
        .unwrap();
    assert_eq!(query.timeout, Some("500ms30s1m".to_string()));
}

#[test]
fn malformed_timeout_is_swallowed_and_leaves_timeout_unset() {
    let query = InstantQuery::builder()
        .metric("up")
        .unwrap()
        .timeout("10x")
        .unwrap()
        .build()
        .unwrap();
    assert_eq!(query.timeout, None);
}

#[test]
fn malformed_timeout_keeps_an_earlier_timeout() {
    let query = InstantQuery::builder()
        .metric("up")
        .unwrap()
        .timeout("30s")
        .unwrap()
        .timeout("10x")
        .unwrap()
        .build()
        .unwrap();
    assert_eq!(query.timeout, Some("30s".to_string()));
}

#[test]
fn at_accepts_a_numeric_timestamp() {
    let query = InstantQuery::builder()
        .metric("up")
        .unwrap()
        .at("1618922012")
        .unwrap()
        .build()
        .unwrap();
    assert_eq!(query.time, Some("1618922012".to_string()));
}

#[test]
fn at_rejects_a_string_that_is_neither_numeric_nor_rfc3339() {
    let result = InstantQuery::builder().metric("up").unwrap().at("not a time");
    assert!(matches!(result, Err(BuilderError::InvalidTimeSpecifier)));
}

#[test]
fn end_to_end_instant_query() {
    let query = InstantQuery::builder()
        .metric("up")
        .unwrap()
        .with_label("job", "node")
        .at("1618922012")
        .unwrap()
        .timeout("30s")
        .unwrap()
        .build()
        .unwrap();
    assert_eq!(query.query, "up{job=\"node\"}");
    assert_eq!(query.time, Some("1618922012".to_string()));
    assert_eq!(query.timeout, Some("30s".to_string()));
}

#[test]
fn builder_can_be_reused_after_build() {
    let builder = InstantQuery::builder().metric("up").unwrap();
    let first = builder.build().unwrap();
    let second = builder.build().unwrap();
    assert_eq!(first.query, second.query);
}
