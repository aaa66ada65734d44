use http::header::{HeaderMap, HeaderValue};
use request_middleware::correlation_id::{CorrelationId, CorrelationIdLayer, CorrelationIdService};
use request_middleware::json_logging::fields::{Field, Metadata, RecordedValue};
use request_middleware::json_logging::logstash::LogstashFormat;
use request_middleware::json_logging::scope::{Context, ScopeStack};
use request_middleware::json_logging::{Layer, Level};
use request_middleware::observability::{
    completion, elapsed_millis, metric_attributes, RequestAttributes, RequestMeasurement,
    REQUEST_HISTOGRAM_NAME,
};

fn label(name: &str, value: &str) -> Field {
    Field { name: name.to_string(), value: RecordedValue::String(value.to_string()) }
}

fn attributes(matched_path: Option<&str>, remote: Option<&str>) -> RequestAttributes {
    RequestAttributes {
        remote: remote.map(|r| r.to_string()),
        matched_path: matched_path.map(|p| p.to_string()),
        requested_uri: "/api/hello/bob?x=1".to_string(),
        method: "GET".to_string(),
        start_nanos: 1_000_000_000,
    }
}

#[test]
fn histogram_name() {
    assert_eq!(REQUEST_HISTOGRAM_NAME, "http_server_requests_seconds");
}

#[test]
fn milliseconds_are_whole_and_saturate() {
    assert_eq!(elapsed_millis(0), 0);
    assert_eq!(elapsed_millis(999_999), 0);
    assert_eq!(elapsed_millis(1_000_000), 1);
    assert_eq!(elapsed_millis(30_000_000), 30);
    assert_eq!(elapsed_millis(u64::MAX as u128 * 1_000_000), u64::MAX);
    assert_eq!(elapsed_millis(u64::MAX as u128 * 1_000_000 - 1), u64::MAX - 1);
    assert_eq!(elapsed_millis(u64::MAX as u128 * 1_000_000 + 1_000_000), u64::MAX);
    assert_eq!(elapsed_millis(u128::MAX), u64::MAX);
}

#[test]
fn labels_of_a_matched_request() {
    assert_eq!(
        metric_attributes(&attributes(Some("/api/hello/:name"), None), 200),
        vec![
            label("uri", "/api/hello/:name"),
            label("method", "GET"),
            Field { name: "status".to_string(), value: RecordedValue::I64(200) },
        ]
    );
}

#[test]
fn labels_of_an_unmatched_request_name_no_path() {
    let labels = metric_attributes(&attributes(None, None), 404);
    assert_eq!(labels[0], label("uri", "unknown"));
    assert_eq!(labels[2], Field { name: "status".to_string(), value: RecordedValue::I64(404) });
}

#[test]
fn completion_event_of_a_request() {
    let event = completion(&attributes(Some("/api/hello/:name"), Some("10.0.0.7")), 200, 30_500_000);
    assert_eq!(
        event.metadata,
        Metadata {
            name: "request complete".to_string(),
            target: "request_middleware::observability".to_string(),
            level: Level::Info,
            file: None,
            line: None,
        }
    );
    assert_eq!(
        event.fields,
        vec![
            label("message", "Request complete: 200 OK"),
            label("remote_host", "10.0.0.7"),
            label("status", "200"),
            Field { name: "elapsed_time".to_string(), value: RecordedValue::U64(30) },
            label("method", "GET"),
            label("requested_uri", "/api/hello/bob?x=1"),
            label("matched_path", "/api/hello/:name"),
        ]
    );
}

#[test]
fn completion_event_without_peer_and_route() {
    let event = completion(&attributes(None, None), 404, 0);
    assert_eq!(
        event.fields,
        vec![
            label("message", "Request complete: 404 Not Found"),
            label("status", "404"),
            Field { name: "elapsed_time".to_string(), value: RecordedValue::U64(0) },
            label("method", "GET"),
            label("requested_uri", "/api/hello/bob?x=1"),
            label("matched_path", "unknown"),
        ]
    );
}

#[test]
fn completion_event_of_a_number_that_is_no_status() {
    let event = completion(&attributes(None, None), 42, 0);
    assert_eq!(event.fields[0], label("message", "Request complete: 42"));
    assert_eq!(event.fields[1], label("status", "42"));
}

#[test]
fn measurement_is_closed_once() {
    let mut measurement = RequestMeasurement::start(attributes(Some("/a"), None));
    assert!(measurement.is_pending());
    let done = measurement.finish(500, 1_030_000_000, None);
    assert!(!measurement.is_pending());
    assert_eq!(done.elapsed_nanos, 30_000_000);
    assert_eq!(done.labels[0], label("uri", "/a"));
    assert_eq!(done.labels[2], Field { name: "status".to_string(), value: RecordedValue::I64(500) });
    assert_eq!(done.event.fields[2], Field { name: "elapsed_time".to_string(), value: RecordedValue::U64(30) });
    assert_eq!(measurement.try_finish(500, 1_030_000_000, None), None);
    assert!(!measurement.is_pending());
}

#[test]
fn route_is_read_again_at_the_response() {
    let mut late = RequestMeasurement::start(attributes(None, None));
    let done = late.try_finish(200, 2_000_000_000, Some("/api/hello/:name".to_string())).unwrap();
    assert_eq!(done.labels[0], label("uri", "/api/hello/:name"));
    assert_eq!(done.event.fields.last(), Some(&label("matched_path", "/api/hello/:name")));

    let mut early = RequestMeasurement::start(attributes(Some("/early"), None));
    let done = early.finish(200, 2_000_000_000, Some("/late".to_string()));
    assert_eq!(done.labels[0], label("uri", "/late"));

    let mut never = RequestMeasurement::start(attributes(None, None));
    let done = never.finish(404, 2_000_000_000, None);
    assert_eq!(done.labels[0], label("uri", "unknown"));
}

#[test]
fn clock_that_did_not_advance_gives_no_time() {
    let mut measurement = RequestMeasurement::start(attributes(None, None));
    let done = measurement.finish(200, 999_999_999, None);
    assert_eq!(done.elapsed_nanos, 0);
}

#[test]
fn request_with_identifier_to_a_route_that_returns() {
    let service: CorrelationIdService<()> = CorrelationIdLayer.layer(());
    let mut request = HeaderMap::new();
    request.insert("X-Correlation-Id".parse::<http::header::HeaderName>().unwrap(), HeaderValue::from_static("abc123"));
    let id = service.resolve(&mut request);
    assert_eq!(id, CorrelationId("abc123".to_string()));

    let layer = Layer::default().event_format(LogstashFormat::default().with_timestamp(false).with_version(false));
    let mut scopes = ScopeStack::new();
    let scope = layer.on_new_span(&mut scopes, None, id.span_attributes());

    let mut measurement = RequestMeasurement::start(RequestAttributes {
        remote: Some("127.0.0.1".to_string()),
        matched_path: Some("/api/hello/:name".to_string()),
        requested_uri: "/api/hello/bob".to_string(),
        method: "GET".to_string(),
        start_nanos: 5,
    });
    let done = measurement.finish(200, 12_000_005, None);
    let ctx = Context { scopes: &scopes, current: Some(scope), thread_name: None };
    let line = String::from_utf8(layer.on_event(&done.event, &ctx)).unwrap();
    assert_eq!(
        line,
        "{\"logger_name\":\"request_middleware::observability\",\"level\":\"INFO\",\"level_value\":5,\"matched_path\":\"/api/hello/:name\",\"requested_uri\":\"/api/hello/bob\",\"method\":\"GET\",\"elapsed_time\":12,\"status\":\"200\",\"remote_host\":\"127.0.0.1\",\"message\":\"Request complete: 200 OK\",\"correlation_id\":\"abc123\"}\n"
    );
    assert_eq!(line.lines().count(), 1);

    let mut response = HeaderMap::new();
    assert!(id.stamp(&mut response).is_ok());
    assert_eq!(response.get("x-correlation-id").unwrap(), "abc123");
}

#[test]
fn identifier_is_published_as_a_span() {
    let attributes = CorrelationId("abc123".to_string()).span_attributes();
    assert_eq!(attributes.metadata.name, "correlation_id");
    assert_eq!(attributes.metadata.target, "request_middleware::correlation_id");
    assert_eq!(attributes.metadata.level, Level::Info);
    assert_eq!(attributes.fields, vec![label("correlation_id", "abc123")]);
    assert_eq!(CorrelationId("abc123".to_string()).to_text(), "abc123");
    assert_eq!(CorrelationId::name(), "x-correlation-id");
}
