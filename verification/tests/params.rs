use prometheus_http_query::{InstantQuery, RangeQuery};

#[test]
fn instant_query_endpoint_and_minimal_params() {
    let query = InstantQuery {
        query: "up".to_string(),
        time: None,
        timeout: None,
    };
    assert_eq!(query.get_query_endpoint(), "/query");
    assert_eq!(query.get_query_params(), vec![("query", "up")]);
}

#[test]
fn instant_query_params_include_time_and_timeout_when_set() {
    let query = InstantQuery {
        query: "up{job=\"node\"}".to_string(),
        time: Some("1618922012".to_string()),
        timeout: Some("30s".to_string()),
    };
    assert_eq!(
        query.get_query_params(),
        vec![
            ("query", "up{job=\"node\"}"),
            ("time", "1618922012"),
            ("timeout", "30s"),
        ]
    );
}

#[test]
fn range_query_endpoint_and_params() {
    let query = RangeQuery {
        query: "up",
        start: "2021-04-09T11:30:00.000+02:00",
        end: "2021-04-09T12:30:00.000+02:00",
        step: "5m",
        timeout: None,
    };
    assert_eq!(query.get_query_endpoint(), "/query_range");
    assert_eq!(
        query.get_query_params(),
        vec![
            ("query", "up"),
            ("start", "2021-04-09T11:30:00.000+02:00"),
            ("end", "2021-04-09T12:30:00.000+02:00"),
            ("step", "5m"),
        ]
    );
}

#[test]
fn range_query_params_include_timeout_when_set() {
    let query = RangeQuery {
        query: "up",
        start: "1618920000",
        end: "1618923600",
        step: "30s",
        timeout: Some("1m"),
    };
    assert_eq!(
        query.get_query_params(),
        vec![
            ("query", "up"),
            ("start", "1618920000"),
            ("end", "1618923600"),
            ("step", "30s"),
            ("timeout", "1m"),
        ]
    );
}
