use request_middleware::json::FloatText;
use request_middleware::json_logging::fields::{
    Attributes, Event, Field, FieldVisitor, Metadata, Record, RecordedFields, RecordedValue, Value,
};
use request_middleware::json_logging::format::{
    format_span_list, new_number_field, new_text_field, write_extension_fields, DefaultSpanFormat,
    FieldFilter, FormatEvent, FormatSpan, LogRecord, NameSet,
};
use request_middleware::json_logging::logstash::{format_stack_trace, level_value, LogstashFormat};
use request_middleware::json_logging::scope::{Context, ScopeStack};
use request_middleware::json_logging::{DisplayLevelFilter, Layer, Level};

fn text(name: &str, value: &str) -> Field {
    Field { name: name.to_string(), value: RecordedValue::String(value.to_string()) }
}

fn number(name: &str, value: u64) -> Field {
    Field { name: name.to_string(), value: RecordedValue::U64(value) }
}

fn metadata(name: &str, target: &str, level: Level, file: Option<&str>, line: Option<u32>) -> Metadata {
    Metadata {
        name: name.to_string(),
        target: target.to_string(),
        level,
        file: file.map(|f| f.to_string()),
        line,
    }
}

fn recorded(fields: Vec<Field>) -> RecordedFields {
    let mut recorder = RecordedFields::default();
    for field in fields {
        recorder.push(field);
    }
    recorder
}

fn plain_format() -> LogstashFormat {
    LogstashFormat::default().with_timestamp(false).with_version(false).with_thread_name(false)
}

struct ShortValuesOnly;

impl FieldFilter for ShortValuesOnly {
    fn accepts(&self, _name: vstd::seq::Seq<char>, _value: Value) -> bool {
        unreachable!()
    }

    fn accept_field(&self, _name: &str, value: &RecordedValue) -> bool {
        match value {
            RecordedValue::String(text) => text.len() <= 4,
            _ => true,
        }
    }
}

#[test]
fn levels_have_names_and_numbers() {
    let levels = [Level::Error, Level::Warn, Level::Info, Level::Trace, Level::Debug];
    let names = ["ERROR", "WARN", "INFO", "TRACE", "DEBUG"];
    let numbers = [3u64, 4, 5, 6, 7];
    for i in 0..5 {
        assert_eq!(levels[i].as_str(), names[i]);
        assert_eq!(level_value(&levels[i]), numbers[i]);
    }
    assert!(Level::Error.rank() > Level::Warn.rank());
    assert!(Level::Warn.rank() > Level::Info.rank());
    assert!(Level::Info.rank() > Level::Debug.rank());
    assert!(Level::Debug.rank() > Level::Trace.rank());
}

#[test]
fn filter_by_level_lets_the_more_severe_spans_through() {
    let filter = DisplayLevelFilter::from_level(Level::Info);
    assert_eq!(filter, DisplayLevelFilter::Level(Level::Info));
    assert!(filter.is_enabled(Level::Trace, Level::Error));
    assert!(filter.is_enabled(Level::Trace, Level::Warn));
    assert!(filter.is_enabled(Level::Trace, Level::Info));
    assert!(!filter.is_enabled(Level::Error, Level::Debug));
    assert!(!filter.is_enabled(Level::Error, Level::Trace));
}

#[test]
fn filter_by_event_compares_with_the_event() {
    let filter = DisplayLevelFilter::Event;
    assert!(filter.is_enabled(Level::Warn, Level::Error));
    assert!(filter.is_enabled(Level::Warn, Level::Warn));
    assert!(!filter.is_enabled(Level::Warn, Level::Info));
}

#[test]
fn filters_all_and_off() {
    for event in [Level::Trace, Level::Error] {
        for span in [Level::Trace, Level::Error] {
            assert!(DisplayLevelFilter::All.is_enabled(event, span));
            assert!(!DisplayLevelFilter::Off.is_enabled(event, span));
        }
    }
}

#[test]
fn name_set_reports_new_names() {
    let mut names = NameSet::new();
    assert!(!names.contains(&"a".to_string()));
    assert!(names.insert("a".to_string()));
    assert!(names.contains(&"a".to_string()));
    assert!(!names.insert("a".to_string()));
    assert!(names.insert("b".to_string()));
    assert!(!names.contains(&"c".to_string()));
}

#[test]
fn recorder_keeps_the_order_of_recording() {
    let fields = recorded(vec![number("a", 1), number("b", 2), number("a", 3)]);
    assert_eq!(fields.len(), 3);
    assert_eq!(fields.get(0), &number("a", 1));
    assert_eq!(fields.get(2), &number("a", 3));
    assert_eq!(fields.clone(), fields);
}

#[test]
fn vetoed_fields_are_dropped() {
    let event = Event {
        metadata: metadata("e", "t", Level::Info, None, None),
        fields: vec![text("keep", "abcd"), text("drop", "abcde"), number("n", 1)],
    };
    let fields = RecordedFields::from_event(&ShortValuesOnly, &event);
    assert_eq!(fields, recorded(vec![text("keep", "abcd"), number("n", 1)]));

    let attributes = Attributes {
        metadata: metadata("s", "t", Level::Info, None, None),
        fields: vec![text("drop", "too long"), text("keep", "ok")],
    };
    let mut fields = RecordedFields::from_attributes(&ShortValuesOnly, &attributes);
    assert_eq!(fields, recorded(vec![text("keep", "ok")]));

    fields.append_record(&ShortValuesOnly, &Record { fields: vec![text("x", "12345"), text("y", "1")] });
    assert_eq!(fields, recorded(vec![text("keep", "ok"), text("y", "1")]));
}

#[test]
fn visitor_records_each_kind_of_value() {
    let format = plain_format();
    let mut visitor = FieldVisitor::new(&format, RecordedFields::default());
    visitor.record_f64("f", FloatText::parse("0.5").unwrap());
    visitor.record_i64("i", -1);
    visitor.record_u64("u", 1);
    visitor.record_bool("b", true);
    visitor.record_str("s", "text");
    let fields = visitor.into_fields();
    assert_eq!(
        fields,
        recorded(vec![
            Field { name: "f".to_string(), value: RecordedValue::F64(FloatText::parse("0.5").unwrap()) },
            Field { name: "i".to_string(), value: RecordedValue::I64(-1) },
            number("u", 1),
            Field { name: "b".to_string(), value: RecordedValue::Bool(true) },
            text("s", "text"),
        ])
    );
}

#[test]
fn visitor_drops_what_the_format_vetoes() {
    let mut visitor = FieldVisitor::new(&ShortValuesOnly, RecordedFields::default());
    visitor.record_str("long", "too long");
    visitor.record_str("short", "ok");
    visitor.record_field(text("long2", "also too long"));
    assert_eq!(visitor.into_fields(), recorded(vec![text("short", "ok")]));
}

#[test]
fn extension_fields_are_written_newest_first_and_once() {
    let mut seen = NameSet::new();
    seen.insert("taken".to_string());
    let mut out = vec![number("first", 0)];
    let fields = recorded(vec![number("a", 1), number("taken", 2), number("b", 3), number("a", 4)]);
    write_extension_fields(&mut seen, &mut out, &fields);
    assert_eq!(out, vec![number("first", 0), number("a", 4), number("b", 3)]);
    assert!(seen.contains(&"a".to_string()));
    assert!(seen.contains(&"b".to_string()));
    assert!(seen.contains(&"taken".to_string()));

    let more = recorded(vec![number("b", 5), number("c", 6)]);
    write_extension_fields(&mut seen, &mut out, &more);
    assert_eq!(out, vec![number("first", 0), number("a", 4), number("b", 3), number("c", 6)]);
}

#[test]
fn scope_stack_creates_records_and_closes() {
    let format = plain_format();
    let mut scopes = ScopeStack::new();
    assert_eq!(scopes.len(), 0);
    let root = scopes.begin_scope(None, metadata("root", "app", Level::Info, None, None), recorded(vec![number("a", 1)]));
    let child = scopes.begin_scope(Some(root), metadata("child", "app", Level::Debug, None, None), RecordedFields::default());
    let orphan = scopes.begin_scope(Some(17), metadata("orphan", "app", Level::Info, None, None), RecordedFields::default());
    assert_eq!((root, child, orphan), (0, 1, 2));
    assert_eq!(scopes.len(), 3);
    assert_eq!(scopes.get(child).parent, Some(root));
    assert_eq!(scopes.get(orphan).parent, None);
    assert!(!scopes.get(root).closed);

    assert!(scopes.record(root, &format, &Record { fields: vec![number("b", 2)] }));
    assert_eq!(scopes.get(root).fields, recorded(vec![number("a", 1), number("b", 2)]));
    assert!(!scopes.record(9, &format, &Record { fields: vec![number("b", 2)] }));

    assert!(scopes.end_scope(root));
    assert!(scopes.get(root).closed);
    assert!(!scopes.end_scope(9));
    assert!(scopes.record(root, &format, &Record { fields: vec![number("c", 3)] }));
    assert_eq!(scopes.get(root).fields.len(), 3);

    assert_eq!(scopes.event_scope(Some(child)), vec![child, root]);
    assert_eq!(scopes.event_scope(Some(orphan)), vec![orphan]);
    assert_eq!(scopes.event_scope(Some(9)), Vec::<usize>::new());
    assert_eq!(scopes.event_scope(None), Vec::<usize>::new());
}

#[test]
fn scope_stack_record_applies_the_veto() {
    let mut scopes = ScopeStack::new();
    let id = scopes.begin_scope(None, metadata("s", "t", Level::Info, None, None), RecordedFields::default());
    scopes.record(id, &ShortValuesOnly, &Record { fields: vec![text("a", "long text"), text("b", "ok")] });
    assert_eq!(scopes.get(id).fields, recorded(vec![text("b", "ok")]));
}

#[test]
fn span_is_shown_by_name_target_and_level() {
    let mut scopes = ScopeStack::new();
    let id = scopes.begin_scope(
        None,
        metadata("handler", "app::api", Level::Warn, Some("src/api.rs"), Some(12)),
        recorded(vec![number("name", 1), number("x", 2), number("line", 3), number("x", 4)]),
    );
    let span = scopes.get(id);
    let short = DefaultSpanFormat::default().format_span(span);
    assert_eq!(short, vec![text("name", "handler"), text("target", "app::api"), text("level", "WARN")]);

    let located = DefaultSpanFormat::default().with_location(true).format_span(span);
    assert_eq!(
        located,
        vec![
            text("name", "handler"),
            text("target", "app::api"),
            text("level", "WARN"),
            text("file", "src/api.rs"),
            number("line", 12),
        ]
    );

    let full = DefaultSpanFormat::default().with_fields(true).format_span(span);
    assert_eq!(
        full,
        vec![text("name", "handler"), text("target", "app::api"), text("level", "WARN"), number("x", 4)]
    );
}

#[test]
fn span_without_location_shows_none() {
    let mut scopes = ScopeStack::new();
    let id = scopes.begin_scope(None, metadata("s", "t", Level::Info, None, None), RecordedFields::default());
    let entries = DefaultSpanFormat::default().with_location(true).with_fields(true).format_span(scopes.get(id));
    assert_eq!(entries, vec![text("name", "s"), text("target", "t"), text("level", "INFO")]);
}

fn three_scopes() -> (ScopeStack, usize) {
    let mut scopes = ScopeStack::new();
    let root = scopes.begin_scope(
        None,
        metadata("request", "app::server", Level::Info, Some("src/server.rs"), Some(10)),
        recorded(vec![text("correlation_id", "abc123"), text("shared", "root")]),
    );
    let middle = scopes.begin_scope(
        Some(root),
        metadata("handler", "app::api", Level::Debug, Some("src/api.rs"), Some(20)),
        recorded(vec![text("shared", "middle"), text("user", "u1")]),
    );
    let leaf = scopes.begin_scope(
        Some(middle),
        metadata("query", "app::db", Level::Error, None, None),
        recorded(vec![text("table", "t")]),
    );
    (scopes, leaf)
}

fn event_at(level: Level, fields: Vec<Field>) -> Event {
    Event { metadata: metadata("event", "app::db", level, Some("src/db.rs"), Some(33)), fields }
}

#[test]
fn span_list_is_innermost_first_and_filtered() {
    let (scopes, leaf) = three_scopes();
    let ctx = Context { scopes: &scopes, current: Some(leaf), thread_name: None };
    let event = event_at(Level::Info, vec![]);
    let format = DefaultSpanFormat::default();

    let all = format_span_list(&format, &event, &ctx, DisplayLevelFilter::All);
    let names: Vec<&RecordedValue> = all.iter().map(|s| &s[0].value).collect();
    assert_eq!(
        names,
        vec![
            &RecordedValue::String("query".to_string()),
            &RecordedValue::String("handler".to_string()),
            &RecordedValue::String("request".to_string()),
        ]
    );

    let by_event = format_span_list(&format, &event, &ctx, DisplayLevelFilter::Event);
    assert_eq!(by_event.len(), 2);
    assert_eq!(by_event[0][0], text("name", "query"));
    assert_eq!(by_event[1][0], text("name", "request"));

    let errors = format_span_list(&format, &event, &ctx, DisplayLevelFilter::from_level(Level::Error));
    assert_eq!(errors.len(), 1);
    assert!(format_span_list(&format, &event, &ctx, DisplayLevelFilter::Off).is_empty());
}

#[test]
fn stack_trace_runs_from_the_root_to_the_event() {
    let (scopes, leaf) = three_scopes();
    let ctx = Context { scopes: &scopes, current: Some(leaf), thread_name: None };
    let event = event_at(Level::Error, vec![]);
    assert_eq!(
        format_stack_trace(&event, &ctx),
        "app::server(src/server.rs:10)\napp::api(src/api.rs:20)\napp::db(<unknown>:0)\napp::db(src/db.rs:33)"
    );
}

#[test]
fn stack_trace_outside_any_scope_is_the_event_alone() {
    let scopes = ScopeStack::new();
    let ctx = Context { scopes: &scopes, current: None, thread_name: None };
    assert_eq!(format_stack_trace(&event_at(Level::Error, vec![]), &ctx), "app::db(src/db.rs:33)");
}

#[test]
fn record_has_the_envelope_in_order() {
    let scopes = ScopeStack::new();
    let ctx = Context { scopes: &scopes, current: None, thread_name: Some("worker-1".to_string()) };
    let event = event_at(Level::Warn, vec![text("message", "hello")]);
    let record = LogstashFormat::default().record_with(&event, &ctx, "2024-01-02T03:04:05Z");
    assert_eq!(
        record,
        LogRecord {
            envelope: vec![
                text("@version", "1"),
                text("@timestamp", "2024-01-02T03:04:05Z"),
                text("thread_name", "worker-1"),
                text("logger_name", "app::db"),
                text("level", "WARN"),
                number("level_value", 4),
            ],
            spans: None,
            fields: vec![text("message", "hello")],
        }
    );
    assert_eq!(
        record.to_json(),
        r#"{"@version":"1","@timestamp":"2024-01-02T03:04:05Z","thread_name":"worker-1","logger_name":"app::db","level":"WARN","level_value":4,"message":"hello"}"#
    );
}

#[test]
fn record_without_thread_name_leaves_it_out() {
    let scopes = ScopeStack::new();
    let ctx = Context { scopes: &scopes, current: None, thread_name: None };
    let record = LogstashFormat::default().record_with(&event_at(Level::Info, vec![]), &ctx, "t");
    assert!(record.envelope.iter().all(|f| f.name != "thread_name"));
}

#[test]
fn builders_switch_envelope_entries_off() {
    let scopes = ScopeStack::new();
    let ctx = Context { scopes: &scopes, current: None, thread_name: Some("w".to_string()) };
    let format = LogstashFormat::default()
        .with_timestamp(false)
        .with_version(false)
        .with_logger_name(false)
        .with_thread_name(false)
        .with_level(false)
        .with_level_value(false);
    let record = format.record_with(&event_at(Level::Info, vec![number("n", 1)]), &ctx, "t");
    assert!(record.envelope.is_empty());
    assert_eq!(record.to_json(), r#"{"n":1}"#);
    let empty = format.record_with(&event_at(Level::Info, vec![]), &ctx, "t");
    assert_eq!(empty.to_json(), "{}");
}

#[test]
fn event_field_wins_over_scope_fields() {
    let (scopes, leaf) = three_scopes();
    let ctx = Context { scopes: &scopes, current: Some(leaf), thread_name: None };
    let event = event_at(
        Level::Info,
        vec![text("shared", "older"), text("shared", "event"), text("level", "mine"), text("spans", "mine")],
    );
    let record = plain_format().record_with(&event, &ctx, "");
    assert_eq!(
        record.fields,
        vec![
            text("shared", "event"),
            text("table", "t"),
            text("user", "u1"),
            text("correlation_id", "abc123"),
        ]
    );
    assert_eq!(record.envelope, vec![text("logger_name", "app::db"), text("level", "INFO"), number("level_value", 5)]);
    assert_eq!(
        record.to_json(),
        r#"{"logger_name":"app::db","level":"INFO","level_value":5,"shared":"event","table":"t","user":"u1","correlation_id":"abc123"}"#
    );
}

#[test]
fn reserved_names_are_kept_from_fields_even_when_the_envelope_is_off() {
    let scopes = ScopeStack::new();
    let ctx = Context { scopes: &scopes, current: None, thread_name: None };
    let format = plain_format().with_level(false).with_level_value(false).with_logger_name(false);
    let event = event_at(
        Level::Info,
        vec![
            text("@version", "x"),
            text("@timestamp", "x"),
            text("thread_name", "x"),
            text("logger_name", "x"),
            text("level", "x"),
            text("level_value", "x"),
            text("stack_trace", "x"),
            text("spans", "x"),
            text("kept", "x"),
        ],
    );
    let record = format.record_with(&event, &ctx, "");
    assert_eq!(record.fields, vec![text("kept", "x")]);
    assert_eq!(record.to_json(), r#"{"kept":"x"}"#);
}

#[test]
fn record_with_span_list_and_stack_trace() {
    let (scopes, leaf) = three_scopes();
    let ctx = Context { scopes: &scopes, current: Some(leaf), thread_name: None };
    let format = plain_format()
        .with_level_value(false)
        .with_logger_name(false)
        .with_span_list(Some(DisplayLevelFilter::from_level(Level::Info)))
        .with_stack_trace(Some(DisplayLevelFilter::from_level(Level::Warn)))
        .span_format(DefaultSpanFormat::default().with_location(true));
    let record = format.record_with(&event_at(Level::Error, vec![]), &ctx, "");
    let mut expected = String::new();
    expected.push_str(r#"{"level":"ERROR","#);
    expected.push_str(r#""stack_trace":"app::server(src/server.rs:10)\napp::api(src/api.rs:20)\napp::db(<unknown>:0)\napp::db(src/db.rs:33)","#);
    expected.push_str(r#""spans":[{"name":"query","target":"app::db","level":"ERROR"},"#);
    expected.push_str(r#"{"name":"request","target":"app::server","level":"INFO","file":"src/server.rs","line":10}],"#);
    expected.push_str(r#""table":"t","user":"u1","shared":"middle","correlation_id":"abc123"}"#);
    assert_eq!(record.to_json(), expected);
}

#[test]
fn stack_trace_is_left_out_below_the_threshold() {
    let (scopes, leaf) = three_scopes();
    let ctx = Context { scopes: &scopes, current: Some(leaf), thread_name: None };
    let format = plain_format().with_stack_trace(Some(DisplayLevelFilter::from_level(Level::Warn)));
    let quiet = format.record_with(&event_at(Level::Info, vec![]), &ctx, "");
    assert!(quiet.envelope.iter().all(|f| f.name != "stack_trace"));
    let loud = format.record_with(&event_at(Level::Warn, vec![]), &ctx, "");
    let trace = loud.envelope.iter().find(|f| f.name == "stack_trace").unwrap();
    match &trace.value {
        RecordedValue::String(text) => {
            assert!(!text.is_empty());
            assert_eq!(text.lines().count(), 4);
            assert!(!text.ends_with('\n'));
        }
        other => panic!("{:?}", other),
    }
    let off = plain_format().with_stack_trace(Some(DisplayLevelFilter::Off));
    assert!(off.record_with(&event_at(Level::Error, vec![]), &ctx, "").envelope.iter().all(|f| f.name != "stack_trace"));
    let by_event = plain_format().with_stack_trace(Some(DisplayLevelFilter::Event));
    assert!(by_event.record_with(&event_at(Level::Trace, vec![]), &ctx, "").envelope.iter().any(|f| f.name == "stack_trace"));
}

#[test]
fn empty_span_list_is_still_written() {
    let scopes = ScopeStack::new();
    let ctx = Context { scopes: &scopes, current: None, thread_name: None };
    let format = plain_format()
        .with_level(false)
        .with_level_value(false)
        .with_logger_name(false)
        .with_span_list(Some(DisplayLevelFilter::All));
    let record = format.record_with(&event_at(Level::Info, vec![number("n", 1)]), &ctx, "");
    assert_eq!(record.spans, Some(vec![]));
    assert_eq!(record.to_json(), r#"{"spans":[],"n":1}"#);
}

#[test]
fn format_event_stamps_the_local_time() {
    let scopes = ScopeStack::new();
    let ctx = Context { scopes: &scopes, current: None, thread_name: None };
    let record = LogstashFormat::default().format_event(&event_at(Level::Info, vec![]), &ctx);
    let stamp = record.envelope.iter().find(|f| f.name == "@timestamp").unwrap();
    match &stamp.value {
        RecordedValue::String(text) => {
            assert!(chrono::DateTime::parse_from_rfc3339(text).is_ok(), "{}", text);
        }
        other => panic!("{:?}", other),
    }
    let without = plain_format().format_event(&event_at(Level::Info, vec![]), &ctx);
    assert!(without.envelope.iter().all(|f| f.name != "@timestamp"));
}

#[test]
fn logstash_format_accepts_every_field() {
    let format = LogstashFormat::default();
    assert!(format.accept_field("any", &RecordedValue::Bool(false)));
    assert!(format.accept_field("level", &RecordedValue::String("x".repeat(10_000))));
}

#[test]
fn layer_writes_one_line_per_event() {
    let (scopes, leaf) = three_scopes();
    let ctx = Context { scopes: &scopes, current: Some(leaf), thread_name: None };
    let layer = Layer::default().event_format(plain_format().with_logger_name(false).with_level_value(false));
    let bytes = layer.write_event(&event_at(Level::Info, vec![text("message", "hi")]), &ctx);
    assert_eq!(
        String::from_utf8(bytes).unwrap(),
        "{\"level\":\"INFO\",\"message\":\"hi\",\"table\":\"t\",\"user\":\"u1\",\"shared\":\"middle\",\"correlation_id\":\"abc123\"}\n"
    );
    let other = Layer::default().event_format(plain_format().with_logger_name(false).with_level_value(false)).record_separator(b"\r\n--".to_vec());
    let bytes = other.on_event(&event_at(Level::Info, vec![]), &Context { scopes: &ScopeStack::new(), current: None, thread_name: None });
    assert_eq!(bytes, b"{\"level\":\"INFO\"}\r\n--".to_vec());
}

#[test]
fn default_layer_ends_records_with_a_line_feed() {
    let scopes = ScopeStack::new();
    let ctx = Context { scopes: &scopes, current: None, thread_name: None };
    let bytes = Layer::default().write_event(&event_at(Level::Info, vec![]), &ctx);
    assert_eq!(bytes.last(), Some(&b'\n'));
    let line = String::from_utf8(bytes).unwrap();
    let parsed: serde_json::Value = serde_json::from_str(line.trim_end()).unwrap();
    assert_eq!(parsed["@version"], "1");
    assert_eq!(parsed["level"], "INFO");
    assert_eq!(parsed["level_value"], 5);
    assert_eq!(parsed["logger_name"], "app::db");
    assert!(parsed["@timestamp"].is_string());
}

#[test]
fn layer_keeps_span_fields_through_its_hooks() {
    let layer = Layer::default().event_format(plain_format().with_logger_name(false).with_level_value(false).with_level(false));
    let mut scopes = ScopeStack::new();
    let root = layer.on_new_span(
        &mut scopes,
        None,
        Attributes { metadata: metadata("request", "app", Level::Info, None, None), fields: vec![text("a", "1")] },
    );
    let child = layer.on_new_span(
        &mut scopes,
        Some(root),
        Attributes { metadata: metadata("inner", "app", Level::Info, None, None), fields: vec![] },
    );
    assert!(layer.on_record(&mut scopes, child, &Record { fields: vec![text("b", "2")] }));
    assert!(!layer.on_record(&mut scopes, 5, &Record { fields: vec![text("b", "2")] }));
    let ctx = Context { scopes: &scopes, current: Some(child), thread_name: None };
    let bytes = layer.on_event(&event_at(Level::Info, vec![]), &ctx);
    assert_eq!(String::from_utf8(bytes).unwrap(), "{\"b\":\"2\",\"a\":\"1\"}\n");
}

#[test]
fn concurrent_requests_do_not_share_fields() {
    let layer = Layer::default().event_format(plain_format().with_logger_name(false).with_level_value(false).with_level(false));
    let mut scopes = ScopeStack::new();
    let first = layer.on_new_span(
        &mut scopes,
        None,
        Attributes { metadata: metadata("request", "app", Level::Info, None, None), fields: vec![text("correlation_id", "one")] },
    );
    let second = layer.on_new_span(
        &mut scopes,
        None,
        Attributes { metadata: metadata("request", "app", Level::Info, None, None), fields: vec![text("correlation_id", "two")] },
    );
    let first_handler = layer.on_new_span(
        &mut scopes,
        Some(first),
        Attributes { metadata: metadata("handler", "app", Level::Info, None, None), fields: vec![] },
    );
    let second_handler = layer.on_new_span(
        &mut scopes,
        Some(second),
        Attributes { metadata: metadata("handler", "app", Level::Info, None, None), fields: vec![] },
    );
    layer.on_record(&mut scopes, second_handler, &Record { fields: vec![text("user", "bob")] });
    layer.on_record(&mut scopes, first_handler, &Record { fields: vec![text("user", "alice")] });
    layer.on_record(&mut scopes, first, &Record { fields: vec![text("route", "/a")] });

    let first_line = layer.on_event(
        &event_at(Level::Info, vec![]),
        &Context { scopes: &scopes, current: Some(first_handler), thread_name: None },
    );
    let second_line = layer.on_event(
        &event_at(Level::Info, vec![]),
        &Context { scopes: &scopes, current: Some(second_handler), thread_name: None },
    );
    assert_eq!(
        String::from_utf8(first_line).unwrap(),
        "{\"user\":\"alice\",\"route\":\"/a\",\"correlation_id\":\"one\"}\n"
    );
    assert_eq!(String::from_utf8(second_line).unwrap(), "{\"user\":\"bob\",\"correlation_id\":\"two\"}\n");
}

#[test]
fn field_constructors() {
    assert_eq!(new_text_field("a", "b"), text("a", "b"));
    assert_eq!(new_number_field("a", 7), number("a", 7));
}
