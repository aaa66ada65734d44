//! A barrier around a request handler: a handler that panics, when it is
//! started or while it completes, yields an error response in place of the
//! panic.
use vstd::prelude::*;
use vstd::string::*;
use crate::correlation_id::CorrelationId;
use crate::json::{object_text, render_object};
use crate::json_logging::fields::{Field, FieldView, RecordedValue, Value, field_views};
use crate::json_logging::format::{
    new_number_field, new_text_field, number_field, text_field, first_value, lemma_entries_concat,
    lemma_single_entry, occurrences,
};
use crate::status::{status_display, status_line};

verus! {

/// Wraps a service in a panic barrier.
#[derive(Clone, Copy, Debug)]
pub struct PanicHandlerLayer;

impl PanicHandlerLayer {
    /// Wraps `inner`.
    pub fn layer<S>(&self, inner: S) -> (r: PanicHandlerService<S>)
        ensures
            r.inner == inner,
    {
        PanicHandlerService::new(inner)
    }
}

/// A service behind a panic barrier.
#[derive(Debug)]
pub struct PanicHandlerService<S> {
    pub inner: S,
}

impl<S> PanicHandlerService<S> {
    /// Wraps `inner`.
    pub fn new(inner: S) -> (r: Self)
        ensures
            r.inner == inner,
    {
        Self { inner }
    }
}

/// What a panic carried: a text, or something that is not looked into.
#[derive(Debug, PartialEq, Eq)]
pub enum PanicPayload {
    Text(String),
    Opaque,
}

/// What a `PanicPayload` stands for in contracts.
pub enum PayloadView {
    Text(Seq<char>),
    Opaque,
}

impl View for PanicPayload {
    type V = PayloadView;

    open spec fn view(&self) -> PayloadView {
        match self {
            PanicPayload::Text(text) => PayloadView::Text(text@),
            PanicPayload::Opaque => PayloadView::Opaque,
        }
    }
}

/// The status of the response that stands for a panic.
pub const INTERNAL_SERVER_ERROR: u16 = 500;

/// The message of a panic: its text, or the status line of the response if it
/// carried none.
pub open spec fn message_text(payload: PayloadView) -> Seq<char> {
    match payload {
        PayloadView::Text(text) => text,
        PayloadView::Opaque => status_display(INTERNAL_SERVER_ERROR),
    }
}

/// The message of a panic: its text, or the status line of the response if it
/// carried none.
pub fn message(err: PanicPayload) -> (r: String)
    ensures
        r@ == message_text(err@),
{
    match err {
        PanicPayload::Text(text) => text,
        PanicPayload::Opaque => match status_line(INTERNAL_SERVER_ERROR) {
            Some(line) => line,
            None => String::new(),
        },
    }
}

/// The members of the body of the response that stands for a panic.
pub open spec fn problem_fields(
    message: Seq<char>,
    correlation_id: Option<Seq<char>>,
) -> Seq<FieldView> {
    seq![
        number_field("status"@, INTERNAL_SERVER_ERROR as u64),
        text_field("message"@, message),
    ] + (match correlation_id {
        Some(id) => seq![text_field("correlation_id"@, id)],
        None => Seq::empty(),
    })
}

/// A response made by the barrier.
#[derive(Debug, PartialEq, Eq)]
pub struct ErrorResponse {
    pub status: u16,
    pub content_type: String,
    pub body: String,
}

/// What an `ErrorResponse` stands for in contracts.
pub struct ErrorResponseView {
    pub status: u16,
    pub content_type: Seq<char>,
    pub body: Seq<char>,
}

impl View for ErrorResponse {
    type V = ErrorResponseView;

    open spec fn view(&self) -> ErrorResponseView {
        ErrorResponseView {
            status: self.status,
            content_type: self.content_type@,
            body: self.body@,
        }
    }
}

/// The view of an optional identifier.
pub open spec fn id_view(correlation_id: Option<&CorrelationId>) -> Option<Seq<char>> {
    match correlation_id {
        Some(id) => Some(id@),
        None => None,
    }
}

/// The response that stands for a panic: an internal server error whose body
/// is a JSON object with the status, the message of the panic and, if the
/// request has one, its correlation identifier.
pub open spec fn panic_response(
    correlation_id: Option<Seq<char>>,
    payload: PayloadView,
) -> ErrorResponseView {
    ErrorResponseView {
        status: INTERNAL_SERVER_ERROR,
        content_type: "application/json"@,
        body: object_text(problem_fields(message_text(payload), correlation_id)),
    }
}

/// The response that stands for a panic.
pub fn response_for_panic(
    correlation_id: Option<&CorrelationId>,
    err: PanicPayload,
) -> (r: ErrorResponse)
    ensures
        r@ == panic_response(id_view(correlation_id), err@),
{
    let text = message(err);
    let mut fields: Vec<Field> = Vec::new();
    fields.push(new_number_field("status", INTERNAL_SERVER_ERROR as u64));
    fields.push(new_text_field("message", text.as_str()));
    match correlation_id {
        Some(id) => {
            fields.push(new_text_field("correlation_id", id.0.as_str()));
        },
        None => {},
    }
    assert(field_views(fields@) =~= problem_fields(text@, id_view(correlation_id)));
    ErrorResponse {
        status: INTERNAL_SERVER_ERROR,
        content_type: "application/json".to_owned(),
        body: render_object(&fields),
    }
}

/// Where the barrier stands with one request.
#[derive(Clone, Copy, Debug, PartialEq, Eq, Structural)]
pub enum BarrierState {
    /// The handler has not been started.
    Invoking,
    /// The handler was started and has not completed.
    Awaiting,
    /// The handler panicked; the error response stands for its result.
    Recovering,
    /// The handler returned; its result was passed through.
    Completed,
}

/// What came of starting the handler, or of asking it once for its result.
#[derive(Debug, PartialEq, Eq)]
pub enum Outcome {
    /// The handler was started.
    Started,
    /// The handler has no result yet.
    Pending,
    /// The handler returned a response or an error of its own.
    Returned,
    /// The handler panicked.
    Panicked(PanicPayload),
}

/// What an `Outcome` stands for in contracts.
pub enum OutcomeView {
    Started,
    Pending,
    Returned,
    Panicked(PayloadView),
}

impl View for Outcome {
    type V = OutcomeView;

    open spec fn view(&self) -> OutcomeView {
        match self {
            Outcome::Started => OutcomeView::Started,
            Outcome::Pending => OutcomeView::Pending,
            Outcome::Returned => OutcomeView::Returned,
            Outcome::Panicked(payload) => OutcomeView::Panicked(payload@),
        }
    }
}

/// What the caller of the barrier does next.
#[derive(Debug, PartialEq, Eq)]
pub enum Action {
    /// Ask the handler for its result.
    Await,
    /// Hand control back and ask again when the handler has made progress.
    Yield,
    /// Pass the handler's result on unchanged.
    Forward,
    /// Answer with this response.
    Respond(ErrorResponse),
}

/// What an `Action` stands for in contracts.
pub enum ActionView {
    Await,
    Yield,
    Forward,
    Respond(ErrorResponseView),
}

impl View for Action {
    type V = ActionView;

    open spec fn view(&self) -> ActionView {
        match self {
            Action::Await => ActionView::Await,
            Action::Yield => ActionView::Yield,
            Action::Forward => ActionView::Forward,
            Action::Respond(response) => ActionView::Respond(response@),
        }
    }
}

/// Whether `outcome` can be met in `state`: an unstarted handler is started,
/// a started one is asked for its result, and a handler that has returned or
/// panicked is not touched again.
pub open spec fn admits(state: BarrierState, outcome: OutcomeView) -> bool {
    match state {
        BarrierState::Invoking => outcome is Started || outcome is Panicked,
        BarrierState::Awaiting => outcome is Pending || outcome is Returned || outcome is Panicked,
        BarrierState::Recovering => false,
        BarrierState::Completed => false,
    }
}

/// The state after `outcome` was met in a state that admits it.
pub open spec fn next_state(state: BarrierState, outcome: OutcomeView) -> BarrierState {
    match outcome {
        OutcomeView::Started => BarrierState::Awaiting,
        OutcomeView::Pending => BarrierState::Awaiting,
        OutcomeView::Returned => BarrierState::Completed,
        OutcomeView::Panicked(_) => BarrierState::Recovering,
    }
}

/// What the caller does after `outcome`, for a request with the identifier
/// `correlation_id`.
pub open spec fn next_action(correlation_id: Option<Seq<char>>, outcome: OutcomeView) -> ActionView {
    match outcome {
        OutcomeView::Started => ActionView::Await,
        OutcomeView::Pending => ActionView::Yield,
        OutcomeView::Returned => ActionView::Forward,
        OutcomeView::Panicked(payload) => ActionView::Respond(panic_response(correlation_id, payload)),
    }
}

/// The barrier of one request.
#[derive(Debug)]
pub struct PanicBarrier {
    correlation_id: Option<CorrelationId>,
    state: BarrierState,
}

impl PanicBarrier {
    /// The identifier of the request, if it has one.
    pub closed spec fn correlation_id(&self) -> Option<Seq<char>> {
        match self.correlation_id {
            Some(id) => Some(id@),
            None => None,
        }
    }

    /// Where the barrier stands.
    pub closed spec fn state(&self) -> BarrierState {
        self.state
    }

    /// The barrier of a request whose handler has not been started.
    pub fn new(correlation_id: Option<CorrelationId>) -> (r: PanicBarrier)
        ensures
            r.state() == BarrierState::Invoking,
            r.correlation_id() == (match correlation_id {
                Some(id) => Some(id@),
                None => None,
            }),
    {
        PanicBarrier { correlation_id, state: BarrierState::Invoking }
    }

    /// Where the barrier stands.
    pub fn current(&self) -> (r: BarrierState)
        ensures
            r == self.state(),
    {
        self.state
    }

    /// Whether `outcome` can be met where the barrier stands.
    pub fn accepts(&self, outcome: &Outcome) -> (r: bool)
        ensures
            r == admits(self.state(), outcome@),
    {
        match self.state {
            BarrierState::Invoking => match outcome {
                Outcome::Started => true,
                Outcome::Panicked(_) => true,
                _ => false,
            },
            BarrierState::Awaiting => match outcome {
                Outcome::Started => false,
                _ => true,
            },
            BarrierState::Recovering => false,
            BarrierState::Completed => false,
        }
    }

    /// Takes note of `outcome` and says what to do next. A panic, at the start
    /// or later, is answered with the error response; anything else leaves the
    /// handler's own result untouched.
    pub fn step(&mut self, outcome: Outcome) -> (r: Action)
        requires
            admits(old(self).state(), outcome@),
        ensures
            final(self).state() == next_state(old(self).state(), outcome@),
            final(self).correlation_id() == old(self).correlation_id(),
            r@ == next_action(old(self).correlation_id(), outcome@),
    {
        match outcome {
            Outcome::Started => {
                self.state = BarrierState::Awaiting;
                Action::Await
            },
            Outcome::Pending => {
                self.state = BarrierState::Awaiting;
                Action::Yield
            },
            Outcome::Returned => {
                self.state = BarrierState::Completed;
                Action::Forward
            },
            Outcome::Panicked(payload) => {
                self.state = BarrierState::Recovering;
                Action::Respond(response_for_panic(self.correlation_id.as_ref(), payload))
            },
        }
    }

    /// As `step`, for a caller that has not made sure that `outcome` can be
    /// met: such an outcome changes nothing and gets no answer.
    pub fn try_step(&mut self, outcome: Outcome) -> (r: Option<Action>)
        ensures
            r is Some <==> admits(old(self).state(), outcome@),
            r is Some ==> final(self).state() == next_state(old(self).state(), outcome@) && r->0@
                == next_action(old(self).correlation_id(), outcome@),
            r is None ==> final(self).state() == old(self).state(),
            final(self).correlation_id() == old(self).correlation_id(),
    {
        if self.accepts(&outcome) {
            Some(self.step(outcome))
        } else {
            None
        }
    }
}

/// A handler that panics, at the start or later, is answered with status 500
/// and a body that holds the status once, as 500, and the request's
/// identifier once, if it has one.
pub proof fn lemma_panic_is_answered(
    state: BarrierState,
    correlation_id: Option<Seq<char>>,
    payload: PayloadView,
)
    requires
        state == BarrierState::Invoking || state == BarrierState::Awaiting,
    ensures
        admits(state, OutcomeView::Panicked(payload)),
        next_state(state, OutcomeView::Panicked(payload)) == BarrierState::Recovering,
        next_action(correlation_id, OutcomeView::Panicked(payload)) == ActionView::Respond(
            panic_response(correlation_id, payload),
        ),
        panic_response(correlation_id, payload).status == 500,
        panic_response(correlation_id, payload).body == object_text(
            problem_fields(message_text(payload), correlation_id),
        ),
        occurrences(problem_fields(message_text(payload), correlation_id), "status"@) == 1,
        first_value(problem_fields(message_text(payload), correlation_id), "status"@) == Some(
            Value::U64(500),
        ),
        first_value(problem_fields(message_text(payload), correlation_id), "correlation_id"@) == (
        match correlation_id {
            Some(id) => Some(Value::String(id)),
            None => None,
        }),
        occurrences(problem_fields(message_text(payload), correlation_id), "correlation_id"@) == (
        if correlation_id is Some {
            1nat
        } else {
            0nat
        }),
{
    reveal_strlit("status");
    reveal_strlit("message");
    reveal_strlit("correlation_id");
    let status = number_field("status"@, INTERNAL_SERVER_ERROR as u64);
    let message = text_field("message"@, message_text(payload));
    let tail = match correlation_id {
        Some(id) => seq![text_field("correlation_id"@, id)],
        None => Seq::empty(),
    };
    assert(seq![status, message] =~= seq![status] + seq![message]);
    assert("status"@ != "message"@) by {
        assert("status"@.len() != "message"@.len());
    }
    assert("status"@ != "correlation_id"@) by {
        assert("status"@.len() != "correlation_id"@.len());
    }
    assert("message"@ != "correlation_id"@) by {
        assert("message"@.len() != "correlation_id"@.len());
    }
    lemma_single_entry(status, "status"@);
    lemma_single_entry(message, "status"@);
    lemma_single_entry(status, "correlation_id"@);
    lemma_single_entry(message, "correlation_id"@);
    lemma_entries_concat(seq![status], seq![message], "status"@);
    lemma_entries_concat(seq![status], seq![message], "correlation_id"@);
    lemma_entries_concat(seq![status] + seq![message], tail, "status"@);
    lemma_entries_concat(seq![status] + seq![message], tail, "correlation_id"@);
    if correlation_id is Some {
        lemma_single_entry(text_field("correlation_id"@, correlation_id->0), "status"@);
        lemma_single_entry(text_field("correlation_id"@, correlation_id->0), "correlation_id"@);
    }
}

} // verus!
