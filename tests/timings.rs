use std::convert::Infallible;

use axum_core::response::{IntoResponse, IntoResponseParts, ResponseParts};
use axum_server_timings::{ServerTimings, Timing};

struct Parts(ServerTimings);

impl IntoResponseParts for Parts {
    type Error = Infallible;

    fn into_response_parts(self, res: ResponseParts) -> Result<ResponseParts, Infallible> {
        Ok(self.0.into_response_parts(res))
    }
}

fn timing_headers(log: ServerTimings) -> Vec<String> {
    let response = (Parts(log), "body").into_response();
    response
        .headers()
        .get_all("server-timing")
        .iter()
        .map(|v| v.to_str().unwrap().to_owned())
        .collect()
}

fn metric(name: &str, desc: Option<&str>, dur: Option<u64>) -> Timing {
    Timing { name: name.to_owned(), desc: desc.map(|d| d.to_owned()), dur }
}

#[test]
fn example_log_serializes() {
    let mut log = ServerTimings::new();
    log.record_all("wait".to_owned(), None, Some(100_000_000));
    log.record_all("fib".to_owned(), Some("compute".to_owned()), Some(250_500_000));
    assert_eq!(
        log.header_text().as_deref(),
        Some("wait;dur=100,fib;desc=\"compute\";dur=250.5")
    );
    assert_eq!(timing_headers(log), vec!["wait;dur=100,fib;desc=\"compute\";dur=250.5".to_owned()]);
}

#[test]
fn quote_in_description_is_escaped() {
    let t = metric("x", Some("a\"b"), None);
    assert_eq!(t.to_string(), "x;desc=\"a\\\"b\"");
}

#[test]
fn bare_metric_is_its_name() {
    assert_eq!(metric("db", None, None).to_string(), "db");
}

#[test]
fn empty_log_adds_no_header() {
    let log = ServerTimings::new();
    assert_eq!(log.header_text(), None);
    assert!(timing_headers(log).is_empty());
}

#[test]
fn disabled_log_adds_nothing() {
    let mut log = ServerTimings::disabled();
    assert!(!log.is_enabled());
    log.record("a", "first");
    log.record_name("b");
    log.record_all("c".to_owned(), None, Some(5));
    log.add_timing(metric("d", None, None));
    assert!(log.timings().is_empty());
    assert_eq!(log.header_text(), None);
    assert!(timing_headers(log).is_empty());
}

#[test]
fn no_trailing_comma() {
    let mut log = ServerTimings::new();
    log.add_timing(metric("a", None, None));
    assert_eq!(log.header_text().as_deref(), Some("a"));
    log.add_timing(metric("b", None, Some(1_000_000)));
    log.add_timing(metric("c,", None, None));
    assert_eq!(log.header_text().as_deref(), Some("a,b;dur=1,c"));
}

#[test]
fn order_of_calls_is_kept() {
    let mut log = ServerTimings::new();
    log.record_name("first");
    log.record_all("second".to_owned(), None, None);
    log.record("third", "desc");
    log.add_timing(metric("fourth", None, None));
    let names: Vec<&str> = log.timings().iter().map(|t| t.name.as_str()).collect();
    assert_eq!(names, vec!["first", "second", "third", "fourth"]);
    let text = log.header_text().unwrap();
    assert!(text.starts_with("first;dur="));
    assert!(text.contains(",second,third;desc=\"desc\";dur="));
    assert!(text.ends_with(",fourth"));
}

#[test]
fn record_measures_and_describes() {
    let mut log = ServerTimings::new();
    log.record("work", "some work");
    let t = &log.timings()[0];
    assert_eq!(t.name, "work");
    assert_eq!(t.desc.as_deref(), Some("some work"));
    assert!(t.dur.is_some());
    log.record_name("more");
    assert_eq!(log.timings()[1].desc, None);
    assert!(log.timings()[1].dur.is_some());
}

#[test]
fn advance_to_measures_from_cursor() {
    let mut log = ServerTimings::new();
    assert_eq!(log.advance_to(1_000), 1_000);
    assert_eq!(log.advance_to(3_500), 2_500);
    log.record_all("raw".to_owned(), None, Some(7));
    log.add_timing(metric("added", None, None));
    assert_eq!(log.advance_to(4_000), 500);
    assert_eq!(log.advance_to(3_000), 0);
    assert_eq!(log.advance_to(4_100), 100);
}

#[test]
fn durations_in_milliseconds() {
    assert_eq!(metric("t", None, Some(0)).to_string(), "t;dur=0");
    assert_eq!(metric("t", None, Some(1)).to_string(), "t;dur=0.000001");
    assert_eq!(metric("t", None, Some(1_234_567_000)).to_string(), "t;dur=1234.567");
    assert_eq!(metric("t", None, Some(10_100_000)).to_string(), "t;dur=10.1");
    assert_eq!(metric("t", None, Some(u64::MAX)).to_string(), "t;dur=18446744073709.551615");
}

#[test]
fn description_and_duration_together() {
    let t = metric("cache", Some("hit \"warm\""), Some(2_000_000));
    assert_eq!(t.to_string(), "cache;desc=\"hit \\\"warm\\\"\";dur=2");
}

#[test]
fn invalid_header_text_adds_no_header() {
    let mut log = ServerTimings::new();
    log.add_timing(metric("bad", Some("line\nbreak"), None));
    assert_eq!(log.header_text().as_deref(), Some("bad;desc=\"line\nbreak\""));
    assert!(timing_headers(log).is_empty());
}

#[test]
fn non_ascii_description_is_kept() {
    let mut log = ServerTimings::new();
    log.add_timing(metric("m", Some("café"), None));
    let response = (Parts(log), "body").into_response();
    let values: Vec<Vec<u8>> = response
        .headers()
        .get_all("server-timing")
        .iter()
        .map(|v| v.as_bytes().to_vec())
        .collect();
    assert_eq!(values, vec!["m;desc=\"café\"".as_bytes().to_vec()]);
}

#[test]
fn default_log_is_enabled_and_empty() {
    let log = ServerTimings::default();
    assert!(log.is_enabled());
    assert!(log.timings().is_empty());
}

#[test]
fn second_log_value_follows_first() {
    let mut first = ServerTimings::new();
    first.add_timing(metric("a", None, Some(1_500_000)));
    let mut second = ServerTimings::new();
    for n in ["a", "b", "c"] {
        second.add_timing(metric(n, None, None));
    }
    let response = (Parts(first), Parts(second), "body").into_response();
    let values: Vec<&str> = response
        .headers()
        .get_all("server-timing")
        .iter()
        .map(|v| v.to_str().unwrap())
        .collect();
    assert_eq!(values, vec!["a;dur=1.5", "a,b,c"]);
    assert_eq!(response.headers().get("content-type").unwrap(), "text/plain; charset=utf-8");
}

#[test]
fn measured_durations_add_up() {
    let mut log = ServerTimings::new();
    let readings: [u64; 4] = [250, 1_000, 1_000, 4_750];
    let mut total: u64 = 0;
    for now in readings {
        total += log.advance_to(now);
        log.add_timing(metric("raw", None, Some(1)));
    }
    assert_eq!(total, 4_750);
}
