use capx::error::CapxError;
use capx::json::JsonValue;
use capx::retry::{judge_answer, retry_delay, Answer, MAX_ATTEMPTS, REQUEST_TIMEOUT_SECS};
use serde_json::Value;
use std::time::Duration;

fn to_value(j: &JsonValue) -> Value {
    match j {
        JsonValue::Null => Value::Null,
        JsonValue::Bool(b) => Value::Bool(*b),
        JsonValue::Number(n) => serde_json::from_str(n).unwrap(),
        JsonValue::Str(s) => Value::String(s.clone()),
        JsonValue::Array(a) => Value::Array(a.iter().map(to_value).collect()),
        JsonValue::Object(ps) => {
            let mut m = serde_json::Map::new();
            for (k, v) in ps {
                m.insert(k.clone(), to_value(v));
            }
            Value::Object(m)
        }
    }
}

#[test]
fn auth_error_display() {
    let e = CapxError::Auth { message: "bad token".to_string() };
    assert_eq!(e.to_string(), "Authentication failed: bad token");
}

#[test]
fn api_error_display() {
    let e = CapxError::Api { status: 404, message: "not found".to_string(), endpoint: "/spaces".to_string() };
    assert_eq!(e.to_string(), "API error 404 on /spaces: not found");
}

#[test]
fn not_found_display() {
    let e = CapxError::NotFound { id: "abc-123".to_string() };
    assert_eq!(e.to_string(), "Not found: abc-123");
}

#[test]
fn rate_limited_with_retry() {
    let e = CapxError::RateLimited { retry_after: Some(Duration::from_secs(5)) };
    let s = e.to_string();
    assert!(s.contains("Rate limited"));
    assert!(s.contains("5s"));
}

#[test]
fn rate_limited_no_retry() {
    let e = CapxError::RateLimited { retry_after: None };
    assert_eq!(e.to_string(), "Rate limited. Please try again later.");
}

#[test]
fn parse_error_display() {
    let e = CapxError::Parse { context: "invalid JSON".to_string() };
    assert_eq!(e.to_string(), "Parse error: invalid JSON");
}

#[test]
fn network_error_display() {
    let e = CapxError::Network { source: "connection refused".to_string() };
    assert_eq!(e.to_string(), "Network error: connection refused");
}

#[test]
fn error_type_returns_correct_string() {
    assert_eq!(CapxError::Auth { message: "x".to_string() }.error_type(), "auth");
    assert_eq!(
        CapxError::Api { status: 500, message: "x".to_string(), endpoint: "/x".to_string() }.error_type(),
        "api"
    );
    assert_eq!(CapxError::NotFound { id: "x".to_string() }.error_type(), "not_found");
    assert_eq!(CapxError::RateLimited { retry_after: None }.error_type(), "rate_limited");
    assert_eq!(CapxError::Parse { context: "x".to_string() }.error_type(), "parse");
    assert_eq!(CapxError::Network { source: "x".to_string() }.error_type(), "network");
}

#[test]
fn to_json_has_error_type_and_message() {
    let e = CapxError::Auth { message: "bad token".to_string() };
    let json = to_value(&e.to_json());
    assert_eq!(json["error"]["type"], "auth");
    assert!(json["error"]["message"].as_str().unwrap().contains("bad token"));
}

#[test]
fn to_json_api_error() {
    let e = CapxError::Api { status: 403, message: "forbidden".to_string(), endpoint: "/spaces".to_string() };
    let json = to_value(&e.to_json());
    assert_eq!(json["error"]["type"], "api");
    assert!(json["error"]["message"].as_str().unwrap().contains("403"));
}

#[test]
fn rate_limited_retry_message_shape() {
    let e = CapxError::RateLimited { retry_after: Some(Duration::from_millis(1500)) };
    assert_eq!(e.to_string(), "Rate limited. Retry after 1.5s");
}

#[test]
fn api_error_status_zero() {
    let e = CapxError::Api { status: 0, message: "m".to_string(), endpoint: "/e".to_string() };
    assert_eq!(e.to_string(), "API error 0 on /e: m");
    let e = CapxError::Api { status: 65535, message: "m".to_string(), endpoint: "/e".to_string() };
    assert_eq!(e.to_string(), "API error 65535 on /e: m");
}

#[test]
fn to_json_rate_limited_message_is_display_text() {
    let e = CapxError::RateLimited { retry_after: Some(Duration::from_millis(1500)) };
    let v = to_value(&e.to_json());
    assert_eq!(v["error"]["type"], "rate_limited");
    assert_eq!(v["error"]["message"], e.to_string());
    assert_eq!(e.to_string(), "Rate limited. Retry after 1.5s");
}

#[test]
fn retry_only_transient_answers_while_attempts_are_left() {
    assert_eq!(REQUEST_TIMEOUT_SECS, 30);
    assert_eq!(retry_delay(429, 1), Some(1000));
    assert_eq!(retry_delay(503, 2), Some(2000));
    assert_eq!(retry_delay(500, MAX_ATTEMPTS), None);
    assert_eq!(retry_delay(404, 1), None);
    assert_eq!(retry_delay(200, 1), None);
    assert_eq!(retry_delay(600, 1), None);
    assert_eq!(retry_delay(429, 0), None);
}

#[test]
fn answers_accepted_retried_or_failed_with_endpoint() {
    assert!(matches!(judge_answer(200, 1, "/user", ""), Answer::Accepted));
    assert!(matches!(judge_answer(204, 3, "/user", ""), Answer::Accepted));
    assert!(matches!(judge_answer(429, 1, "/user", ""), Answer::Retry { wait_ms: 1000 }));
    assert!(matches!(judge_answer(502, 2, "/user", ""), Answer::Retry { wait_ms: 2000 }));
    match judge_answer(503, MAX_ATTEMPTS, "/content/syncing", "busy") {
        Answer::Failed { error } => {
            assert_eq!(error.to_string(), "API error 503 on /content/syncing: busy");
            assert_eq!(error.error_type(), "api");
        },
        _ => panic!("expected a failure"),
    }
    match judge_answer(404, 1, "/basics/lookup", "no such space") {
        Answer::Failed { error } => assert_eq!(error.to_string(), "API error 404 on /basics/lookup: no such space"),
        _ => panic!("expected a failure"),
    }
}
