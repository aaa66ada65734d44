//! What is measured of a request: its attributes at entry, and at its end the
//! completion event and the labels of its latency observation.
use vstd::prelude::*;
use vstd::string::*;
use crate::json::{append_decimal, decimal};
use crate::json_logging::Level;
use crate::json_logging::fields::{
    Event, EventView, Field, FieldView, Metadata, MetadataView, RecordedValue, Value, field_views,
};
use crate::json_logging::format::{
    new_number_field, new_text_field, number_field, text_field, text_view,
};
use crate::status::{status_display, status_line};

verus! {

/// The name of the histogram of request latencies, in seconds.
pub const REQUEST_HISTOGRAM_NAME: &'static str = "http_server_requests_seconds";

/// What is known of a request when its handling starts.
#[derive(Debug, PartialEq, Eq)]
pub struct RequestAttributes {
    /// The address of the peer, if it is known.
    pub remote: Option<String>,
    /// The template of the route that matched, if one has matched yet.
    pub matched_path: Option<String>,
    /// The target of the request as it was sent.
    pub requested_uri: String,
    pub method: String,
    /// The reading of a monotonic clock at the start, in nanoseconds.
    pub start_nanos: u128,
}

/// What a `RequestAttributes` stands for in contracts.
pub struct RequestAttributesView {
    pub remote: Option<Seq<char>>,
    pub matched_path: Option<Seq<char>>,
    pub requested_uri: Seq<char>,
    pub method: Seq<char>,
    pub start_nanos: u128,
}

impl View for RequestAttributes {
    type V = RequestAttributesView;

    open spec fn view(&self) -> RequestAttributesView {
        RequestAttributesView {
            remote: text_view(self.remote),
            matched_path: text_view(self.matched_path),
            requested_uri: self.requested_uri@,
            method: self.method@,
            start_nanos: self.start_nanos,
        }
    }
}

/// The whole milliseconds in `nanos` nanoseconds, or the largest number of 64
/// bits if there are more.
pub open spec fn saturated_millis(nanos: u128) -> u64 {
    if nanos / 1_000_000 <= u64::MAX {
        (nanos / 1_000_000) as u64
    } else {
        u64::MAX
    }
}

/// The whole milliseconds in `nanos` nanoseconds, or the largest number of 64
/// bits if there are more.
pub fn elapsed_millis(nanos: u128) -> (r: u64)
    ensures
        r == saturated_millis(nanos),
{
    let millis: u128 = nanos / 1_000_000;
    if millis <= 0xffff_ffff_ffff_ffffu128 {
        millis as u64
    } else {
        u64::MAX
    }
}

/// The time from the reading `start` of a monotonic clock to the reading
/// `now`, in nanoseconds; nothing if the clock did not advance.
pub open spec fn elapsed_between(start: u128, now: u128) -> u128 {
    if now >= start {
        (now - start) as u128
    } else {
        0
    }
}

/// The route under which a request is counted: the template that matched, as
/// it is known when the response is ready or else as it was known at entry,
/// and `unknown` if no route matched.
pub open spec fn route_label(at_entry: Option<Seq<char>>, at_response: Option<Seq<char>>) -> Seq<char> {
    match at_response {
        Some(route) => route,
        None => match at_entry {
            Some(route) => route,
            None => "unknown"@,
        },
    }
}

/// The labels of the latency observation of a request.
pub open spec fn metric_labels(route: Seq<char>, method: Seq<char>, status: u16) -> Seq<FieldView> {
    seq![
        text_field("uri"@, route),
        text_field("method"@, method),
        FieldView { name: "status"@, value: Value::I64(status as i64) },
    ]
}

/// The labels of the latency observation of a request that was answered with
/// `status`.
pub fn metric_attributes(request_attributes: &RequestAttributes, status: u16) -> (r: Vec<Field>)
    ensures
        field_views(r@) == metric_labels(
            route_label(request_attributes@.matched_path, None),
            request_attributes@.method,
            status,
        ),
{
    let mut labels: Vec<Field> = Vec::new();
    match &request_attributes.matched_path {
        Some(matched) => labels.push(new_text_field("uri", matched.as_str())),
        None => labels.push(new_text_field("uri", "unknown")),
    }
    labels.push(new_text_field("method", request_attributes.method.as_str()));
    labels.push(Field { name: "status".to_owned(), value: RecordedValue::I64(status as i64) });
    assert(field_views(labels@) =~= metric_labels(
        route_label(request_attributes@.matched_path, None),
        request_attributes@.method,
        status,
    ));
    labels
}

/// How a status is shown in the message of the completion event: as its
/// status line, or as the bare number if it is no HTTP status code.
pub open spec fn status_in_message(status: u16) -> Seq<char> {
    if 100 <= status <= 999 {
        status_display(status)
    } else {
        decimal(status as nat)
    }
}

/// The target under which the completion event is logged.
pub open spec fn completion_target() -> Seq<char> {
    "request_middleware::observability"@
}

/// The event that reports a completed request: the message, the peer if it is
/// known, the status, the time taken in milliseconds, the method, the target
/// and the route.
pub open spec fn completion_event(
    attributes: RequestAttributesView,
    status: u16,
    elapsed_nanos: u128,
) -> EventView {
    EventView {
        metadata: MetadataView {
            name: "request complete"@,
            target: completion_target(),
            level: Level::Info,
            file: None,
            line: None,
        },
        fields: seq![text_field("message"@, "Request complete: "@ + status_in_message(status))] + (
        match attributes.remote {
            Some(remote) => seq![text_field("remote_host"@, remote)],
            None => Seq::empty(),
        }) + seq![
            text_field("status"@, decimal(status as nat)),
            number_field("elapsed_time"@, saturated_millis(elapsed_nanos)),
            text_field("method"@, attributes.method),
            text_field("requested_uri"@, attributes.requested_uri),
            text_field("matched_path"@, route_label(attributes.matched_path, None)),
        ],
    }
}

/// What is reported of a completed request.
#[derive(Debug, PartialEq, Eq)]
pub struct Completion {
    /// The event to log.
    pub event: Event,
    /// The labels of the latency observation.
    pub labels: Vec<Field>,
    /// The latency to observe, in nanoseconds.
    pub elapsed_nanos: u128,
}

/// The measurement of one request, from its entry to its response.
#[derive(Debug)]
pub struct RequestMeasurement {
    attributes: Option<RequestAttributes>,
}

impl RequestMeasurement {
    /// The attributes of the request, as long as the measurement is open.
    pub closed spec fn pending(&self) -> Option<RequestAttributesView> {
        match self.attributes {
            Some(attributes) => Some(attributes@),
            None => None,
        }
    }

    /// Opens the measurement of a request.
    pub fn start(attributes: RequestAttributes) -> (r: RequestMeasurement)
        ensures
            r.pending() == Some(attributes@),
    {
        RequestMeasurement { attributes: Some(attributes) }
    }

    /// Whether the measurement is still open.
    pub fn is_pending(&self) -> (r: bool)
        ensures
            r == self.pending() is Some,
    {
        self.attributes.is_some()
    }

    /// Closes the measurement of a request that is answered with `status` at
    /// the clock reading `now_nanos`. The route that matched is read again:
    /// `matched_path` is the template known now, if there is one. A
    /// measurement is closed once.
    pub fn finish(
        &mut self,
        status: u16,
        now_nanos: u128,
        matched_path: Option<String>,
    ) -> (r: Completion)
        requires
            old(self).pending() is Some,
        ensures
            final(self).pending() is None,
            r.elapsed_nanos == elapsed_between(old(self).pending()->0.start_nanos, now_nanos),
            r.event@ == completion_event(
                resolved_attributes(old(self).pending()->0, text_view(matched_path)),
                status,
                r.elapsed_nanos,
            ),
            field_views(r.labels@) == metric_labels(
                route_label(old(self).pending()->0.matched_path, text_view(matched_path)),
                old(self).pending()->0.method,
                status,
            ),
    {
        let mut taken: Option<RequestAttributes> = None;
        core::mem::swap(&mut self.attributes, &mut taken);
        let captured = taken.unwrap();
        let attributes = RequestAttributes {
            remote: captured.remote,
            matched_path: match matched_path {
                Some(route) => Some(route),
                None => captured.matched_path,
            },
            requested_uri: captured.requested_uri,
            method: captured.method,
            start_nanos: captured.start_nanos,
        };
        let elapsed_nanos: u128 = if now_nanos >= attributes.start_nanos {
            now_nanos - attributes.start_nanos
        } else {
            0
        };
        let labels = metric_attributes(&attributes, status);
        let event = completion(&attributes, status, elapsed_nanos);
        Completion { event, labels, elapsed_nanos }
    }

    /// As `finish`, for a caller that has not made sure that the measurement
    /// is open: a closed one yields nothing.
    pub fn try_finish(
        &mut self,
        status: u16,
        now_nanos: u128,
        matched_path: Option<String>,
    ) -> (r: Option<Completion>)
        ensures
            final(self).pending() is None,
            r is Some <==> old(self).pending() is Some,
            r is Some ==> {
                &&& r->0.elapsed_nanos == elapsed_between(old(self).pending()->0.start_nanos, now_nanos)
                &&& r->0.event@ == completion_event(
                    resolved_attributes(old(self).pending()->0, text_view(matched_path)),
                    status,
                    r->0.elapsed_nanos,
                )
                &&& field_views(r->0.labels@) == metric_labels(
                    route_label(old(self).pending()->0.matched_path, text_view(matched_path)),
                    old(self).pending()->0.method,
                    status,
                )
            },
    {
        if self.is_pending() {
            Some(self.finish(status, now_nanos, matched_path))
        } else {
            None
        }
    }
}

/// The attributes of a request once the route is read again at the response.
pub open spec fn resolved_attributes(
    at_entry: RequestAttributesView,
    matched_path: Option<Seq<char>>,
) -> RequestAttributesView {
    RequestAttributesView {
        matched_path: match matched_path {
            Some(route) => Some(route),
            None => at_entry.matched_path,
        },
        ..at_entry
    }
}

/// The event that reports a completed request.
pub fn completion(attributes: &RequestAttributes, status: u16, elapsed_nanos: u128) -> (r: Event)
    ensures
        r@ == completion_event(attributes@, status, elapsed_nanos),
{
    let mut message = "Request complete: ".to_owned();
    match status_line(status) {
        Some(line) => message.append(line.as_str()),
        None => append_decimal(&mut message, status as u64),
    }
    let mut status_text = String::new();
    append_decimal(&mut status_text, status as u64);
    assert(status_text@ =~= decimal(status as nat));
    let mut fields: Vec<Field> = Vec::new();
    fields.push(new_text_field("message", message.as_str()));
    match &attributes.remote {
        Some(remote) => fields.push(new_text_field("remote_host", remote.as_str())),
        None => {},
    }
    let ghost head = field_views(fields@);
    assert(head =~= seq![text_field("message"@, "Request complete: "@ + status_in_message(status))] + (
    match attributes@.remote {
        Some(remote) => seq![text_field("remote_host"@, remote)],
        None => Seq::empty(),
    }));
    fields.push(new_text_field("status", status_text.as_str()));
    fields.push(new_number_field("elapsed_time", elapsed_millis(elapsed_nanos)));
    fields.push(new_text_field("method", attributes.method.as_str()));
    fields.push(new_text_field("requested_uri", attributes.requested_uri.as_str()));
    match &attributes.matched_path {
        Some(route) => fields.push(new_text_field("matched_path", route.as_str())),
        None => fields.push(new_text_field("matched_path", "unknown")),
    }
    assert(field_views(fields@) =~= head + seq![
        text_field("status"@, decimal(status as nat)),
        number_field("elapsed_time"@, saturated_millis(elapsed_nanos)),
        text_field("method"@, attributes@.method),
        text_field("requested_uri"@, attributes@.requested_uri),
        text_field("matched_path"@, route_label(attributes@.matched_path, None)),
    ]);
    Event {
        metadata: Metadata {
            name: "request complete".to_owned(),
            target: "request_middleware::observability".to_owned(),
            level: Level::Info,
            file: None,
            line: None,
        },
        fields,
    }
}

} // verus!
