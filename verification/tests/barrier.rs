use request_middleware::correlation_id::CorrelationId;
use request_middleware::json_logging::fields::{Event, Field, Metadata, RecordedValue};
use request_middleware::json_logging::logstash::LogstashFormat;
use request_middleware::json_logging::scope::{Context, ScopeStack};
use request_middleware::json_logging::{DisplayLevelFilter, Layer, Level};
use request_middleware::panics::{
    message, response_for_panic, Action, BarrierState, ErrorResponse, Outcome, PanicBarrier,
    PanicHandlerLayer, PanicHandlerService, PanicPayload, INTERNAL_SERVER_ERROR,
};

fn token() -> CorrelationId {
    CorrelationId("01HV3K8Z9Q4T6XW2B7N5M0PRSD".to_string())
}

#[test]
fn message_is_the_text_of_the_panic() {
    assert_eq!(message(PanicPayload::Text("Hello, world!".to_string())), "Hello, world!");
    assert_eq!(message(PanicPayload::Text(String::new())), "");
}

#[test]
fn message_of_an_opaque_panic_is_the_status_line() {
    assert_eq!(message(PanicPayload::Opaque), "500 Internal Server Error");
}

#[test]
fn response_for_panic_with_identifier() {
    let id = token();
    let response = response_for_panic(Some(&id), PanicPayload::Text("Hello, bob!".to_string()));
    assert_eq!(
        response,
        ErrorResponse {
            status: 500,
            content_type: "application/json".to_string(),
            body: r#"{"status":500,"message":"Hello, bob!","correlation_id":"01HV3K8Z9Q4T6XW2B7N5M0PRSD"}"#.to_string(),
        }
    );
}

#[test]
fn response_for_panic_without_identifier() {
    let response = response_for_panic(None, PanicPayload::Opaque);
    assert_eq!(response.status, INTERNAL_SERVER_ERROR);
    assert_eq!(response.body, r#"{"status":500,"message":"500 Internal Server Error"}"#);
}

#[test]
fn response_body_escapes_the_message() {
    let response = response_for_panic(None, PanicPayload::Text("a \"quoted\"\nline".to_string()));
    assert_eq!(response.body, "{\"status\":500,\"message\":\"a \\\"quoted\\\"\\nline\"}");
    let parsed: serde_json::Value = serde_json::from_str(&response.body).unwrap();
    assert_eq!(parsed["status"], 500);
    assert_eq!(parsed["message"], "a \"quoted\"\nline");
    assert!(parsed.get("correlation_id").is_none());
}

#[test]
fn handler_that_returns_is_passed_through() {
    let mut barrier = PanicBarrier::new(Some(token()));
    assert_eq!(barrier.current(), BarrierState::Invoking);
    assert_eq!(barrier.step(Outcome::Started), Action::Await);
    assert_eq!(barrier.current(), BarrierState::Awaiting);
    assert_eq!(barrier.step(Outcome::Pending), Action::Yield);
    assert_eq!(barrier.current(), BarrierState::Awaiting);
    assert_eq!(barrier.step(Outcome::Pending), Action::Yield);
    assert_eq!(barrier.step(Outcome::Returned), Action::Forward);
    assert_eq!(barrier.current(), BarrierState::Completed);
}

#[test]
fn panic_at_the_start_is_answered() {
    let mut barrier = PanicBarrier::new(Some(token()));
    let action = barrier.step(Outcome::Panicked(PanicPayload::Text("boom".to_string())));
    assert_eq!(barrier.current(), BarrierState::Recovering);
    match action {
        Action::Respond(response) => {
            assert_eq!(response.status, 500);
            assert_eq!(response.content_type, "application/json");
            assert_eq!(
                response.body,
                r#"{"status":500,"message":"boom","correlation_id":"01HV3K8Z9Q4T6XW2B7N5M0PRSD"}"#
            );
        }
        other => panic!("{:?}", other),
    }
}

#[test]
fn panic_during_completion_is_answered() {
    let mut barrier = PanicBarrier::new(None);
    barrier.step(Outcome::Started);
    barrier.step(Outcome::Pending);
    let action = barrier.step(Outcome::Panicked(PanicPayload::Opaque));
    assert_eq!(barrier.current(), BarrierState::Recovering);
    assert_eq!(
        action,
        Action::Respond(ErrorResponse {
            status: 500,
            content_type: "application/json".to_string(),
            body: r#"{"status":500,"message":"500 Internal Server Error"}"#.to_string(),
        })
    );
}

#[test]
fn barrier_says_which_outcomes_it_can_meet() {
    let mut barrier = PanicBarrier::new(None);
    assert!(barrier.accepts(&Outcome::Started));
    assert!(barrier.accepts(&Outcome::Panicked(PanicPayload::Opaque)));
    assert!(!barrier.accepts(&Outcome::Pending));
    assert!(!barrier.accepts(&Outcome::Returned));
    barrier.step(Outcome::Started);
    assert!(!barrier.accepts(&Outcome::Started));
    assert!(barrier.accepts(&Outcome::Pending));
    assert!(barrier.accepts(&Outcome::Returned));
    assert!(barrier.accepts(&Outcome::Panicked(PanicPayload::Opaque)));
    barrier.step(Outcome::Returned);
    for outcome in [Outcome::Started, Outcome::Pending, Outcome::Returned, Outcome::Panicked(PanicPayload::Opaque)] {
        assert!(!barrier.accepts(&outcome));
    }
}

#[test]
fn completed_handler_is_not_observed_again() {
    let mut barrier = PanicBarrier::new(None);
    assert_eq!(barrier.try_step(Outcome::Pending), None);
    assert_eq!(barrier.current(), BarrierState::Invoking);
    assert_eq!(barrier.try_step(Outcome::Started), Some(Action::Await));
    assert_eq!(barrier.try_step(Outcome::Returned), Some(Action::Forward));
    assert_eq!(barrier.try_step(Outcome::Returned), None);
    assert_eq!(barrier.try_step(Outcome::Pending), None);
    assert_eq!(barrier.try_step(Outcome::Panicked(PanicPayload::Opaque)), None);
    assert_eq!(barrier.current(), BarrierState::Completed);

    let mut panicked = PanicBarrier::new(None);
    panicked.step(Outcome::Panicked(PanicPayload::Opaque));
    assert_eq!(panicked.try_step(Outcome::Pending), None);
    assert_eq!(panicked.try_step(Outcome::Panicked(PanicPayload::Opaque)), None);
    assert_eq!(panicked.current(), BarrierState::Recovering);
}

#[test]
fn layer_wraps_the_inner_service() {
    let service: PanicHandlerService<u8> = PanicHandlerLayer.layer(7u8);
    assert_eq!(service.inner, 7);
    assert_eq!(PanicHandlerService::new("inner").inner, "inner");
}

#[test]
fn request_to_a_route_whose_handler_panics() {
    let id = token();
    let layer = Layer::default().event_format(
        LogstashFormat::default()
            .with_timestamp(false)
            .with_version(false)
            .with_stack_trace(Some(DisplayLevelFilter::from_level(Level::Error))),
    );
    let mut scopes = ScopeStack::new();
    let request_scope = layer.on_new_span(&mut scopes, None, id.span_attributes());

    let mut barrier = PanicBarrier::new(Some(id.clone()));
    assert_eq!(barrier.step(Outcome::Started), Action::Await);
    assert_eq!(barrier.step(Outcome::Pending), Action::Yield);
    let action = barrier.step(Outcome::Panicked(PanicPayload::Text("Hello, bob!".to_string())));
    assert_eq!(
        action,
        Action::Respond(ErrorResponse {
            status: 500,
            content_type: "application/json".to_string(),
            body: r#"{"status":500,"message":"Hello, bob!","correlation_id":"01HV3K8Z9Q4T6XW2B7N5M0PRSD"}"#.to_string(),
        })
    );

    let event = Event {
        metadata: Metadata {
            name: "panic".to_string(),
            target: "app::api".to_string(),
            level: Level::Error,
            file: Some("src/api.rs".to_string()),
            line: Some(44),
        },
        fields: vec![Field {
            name: "message".to_string(),
            value: RecordedValue::String("Hello, bob!".to_string()),
        }],
    };
    let ctx = Context { scopes: &scopes, current: Some(request_scope), thread_name: None };
    let line = String::from_utf8(layer.on_event(&event, &ctx)).unwrap();
    assert_eq!(line.lines().count(), 1);
    let parsed: serde_json::Value = serde_json::from_str(line.trim_end()).unwrap();
    assert_eq!(
        parsed["stack_trace"],
        "request_middleware::correlation_id(<unknown>:0)\napp::api(src/api.rs:44)"
    );
    assert_eq!(parsed["correlation_id"], "01HV3K8Z9Q4T6XW2B7N5M0PRSD");
    assert_eq!(parsed["level"], "ERROR");
    assert_eq!(parsed["message"], "Hello, bob!");
}
