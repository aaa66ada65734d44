//! Structured logging: severity levels, span filters and the layer that
//! renders one JSON record per event.
pub mod fields;
pub mod format;
pub mod logstash;
pub mod scope;

use vstd::prelude::*;
use crate::json::utf8_bytes;
use crate::json_logging::fields::{Attributes, Event, Record, RecordedFields, accepted, field_views};
use crate::json_logging::format::{FormatEvent, LogRecordView, record_text, text_view};
use crate::json_logging::logstash::LogstashFormat;
use crate::json_logging::scope::{Context, ScopeStack, ScopeView};

verus! {

/// Severity of an event or a span, from the most verbose to the most severe.
#[derive(Clone, Copy, Debug, PartialEq, Eq, Structural)]
pub enum Level {
    Trace,
    Debug,
    Info,
    Warn,
    Error,
}

impl Level {
    /// Rank of the level: a more severe level has a higher rank.
    pub open spec fn severity(self) -> nat {
        match self {
            Level::Trace => 0,
            Level::Debug => 1,
            Level::Info => 2,
            Level::Warn => 3,
            Level::Error => 4,
        }
    }

    /// The upper-case name under which the level is logged.
    pub open spec fn name(self) -> Seq<char> {
        match self {
            Level::Trace => "TRACE"@,
            Level::Debug => "DEBUG"@,
            Level::Info => "INFO"@,
            Level::Warn => "WARN"@,
            Level::Error => "ERROR"@,
        }
    }

    /// Rank of the level as a machine integer.
    pub fn rank(self) -> (r: u8)
        ensures
            r as nat == self.severity(),
    {
        match self {
            Level::Trace => 0,
            Level::Debug => 1,
            Level::Info => 2,
            Level::Warn => 3,
            Level::Error => 4,
        }
    }

    /// The upper-case name under which the level is logged.
    pub fn as_str(self) -> (r: &'static str)
        ensures
            r@ == self.name(),
    {
        match self {
            Level::Trace => "TRACE",
            Level::Debug => "DEBUG",
            Level::Info => "INFO",
            Level::Warn => "WARN",
            Level::Error => "ERROR",
        }
    }
}

/// Decides which enclosing spans are shown for an event.
#[derive(Clone, Copy, Debug, PartialEq, Eq)]
pub enum DisplayLevelFilter {
    /// No span is shown.
    Off,
    /// Every span is shown.
    All,
    /// Spans at least as severe as the given level are shown.
    Level(Level),
    /// Spans at least as severe as the event itself are shown.
    Event,
}

impl DisplayLevelFilter {
    /// Whether a span of severity `span_level` is shown for an event of
    /// severity `event_level`.
    pub open spec fn enables(self, event_level: Level, span_level: Level) -> bool {
        match self {
            DisplayLevelFilter::Off => false,
            DisplayLevelFilter::All => true,
            DisplayLevelFilter::Level(level) => span_level.severity() >= level.severity(),
            DisplayLevelFilter::Event => span_level.severity() >= event_level.severity(),
        }
    }

    /// The filter that shows spans at least as severe as `level`.
    pub fn from_level(level: Level) -> (r: DisplayLevelFilter)
        ensures
            r == DisplayLevelFilter::Level(level),
    {
        DisplayLevelFilter::Level(level)
    }

    /// Whether a span of severity `span_level` is shown for an event of
    /// severity `event_level`.
    pub fn is_enabled(&self, event_level: Level, span_level: Level) -> (r: bool)
        ensures
            r == self.enables(event_level, span_level),
    {
        let filter_level = match self {
            DisplayLevelFilter::Level(level) => *level,
            DisplayLevelFilter::Event => event_level,
            DisplayLevelFilter::All => {
                return true;
            },
            DisplayLevelFilter::Off => {
                return false;
            },
        };
        span_level.rank() >= filter_level.rank()
    }
}

/// Turns each event into one JSON record, followed by a separator, and keeps
/// the fields of the spans.
#[derive(Debug)]
pub struct Layer<E = LogstashFormat> {
    record_separator: Vec<u8>,
    event_format: E,
}

impl Default for Layer {
    fn default() -> (r: Layer)
        ensures
            r.separator() == seq![10u8],
            r.format().config() == LogstashFormat::default_config(),
            !r.format().span_formatter().shows_location(),
            !r.format().span_formatter().shows_fields(),
    {
        let mut record_separator: Vec<u8> = Vec::new();
        record_separator.push(10u8);
        assert(record_separator@ =~= seq![10u8]);
        Layer { record_separator, event_format: LogstashFormat::default() }
    }
}

impl<E> Layer<E> {
    /// The bytes written after each record.
    pub closed spec fn separator(&self) -> Seq<u8> {
        self.record_separator@
    }

    /// The layout of the records.
    pub closed spec fn format(&self) -> E {
        self.event_format
    }

    /// The layout of the records.
    pub fn format_ref(&self) -> (r: &E)
        ensures
            *r == self.format(),
    {
        &self.event_format
    }

    /// Sets the bytes written after each record.
    pub fn record_separator(self, separator: Vec<u8>) -> (r: Layer<E>)
        ensures
            r.separator() == separator@,
            r.format() == self.format(),
    {
        Layer { record_separator: separator, ..self }
    }

    /// Replaces the layout of the records.
    pub fn event_format<E2>(self, event_format: E2) -> (r: Layer<E2>)
        ensures
            r.separator() == self.separator(),
            r.format() == event_format,
    {
        Layer { event_format, record_separator: self.record_separator }
    }
}

impl<E: FormatEvent> Layer<E> {
    /// Whether `bytes` is what is written for `event`: the JSON text of one of
    /// its records in UTF-8, then the separator.
    pub open spec fn writes(
        &self,
        event: fields::EventView,
        scope: Seq<ScopeView>,
        thread_name: Option<Seq<char>>,
        bytes: Seq<u8>,
    ) -> bool {
        exists|record: LogRecordView|
            #[trigger] self.format().formats(event, scope, thread_name, record) && bytes
                == vstd::utf8::encode_utf8(record_text(record)) + self.separator()
    }

    /// The bytes to write for `event`: its record as JSON, then the separator.
    pub fn write_event(&self, event: &Event, ctx: &Context) -> (r: Vec<u8>)
        ensures
            self.writes(event@, ctx.event_scope(), text_view(ctx.thread_name), r@),
    {
        let record = self.event_format.format_event(event, ctx);
        let text = record.to_json();
        let mut bytes = utf8_bytes(text.as_str());
        let mut i: usize = 0;
        let ghost start = bytes@;
        while i < self.record_separator.len()
            invariant
                i <= self.record_separator@.len(),
                bytes@ == start + self.record_separator@.take(i as int),
            decreases self.record_separator.len() - i,
        {
            bytes.push(self.record_separator[i]);
            i += 1;
            assert(bytes@ =~= start + self.record_separator@.take(i as int));
        }
        assert(self.record_separator@.take(i as int) =~= self.record_separator@);
        assert(self.format().formats(
            event@,
            ctx.event_scope(),
            text_view(ctx.thread_name),
            record@,
        ));
        bytes
    }

    /// Creates the scope of a new span under `parent`, with the fields of
    /// `attributes` that the layout does not veto, and returns its handle.
    pub fn on_new_span(
        &self,
        scopes: &mut ScopeStack,
        parent: Option<usize>,
        attributes: Attributes,
    ) -> (id: usize)
        ensures
            id == old(scopes)@.len(),
            final(scopes)@ == old(scopes)@.push(
                ScopeView {
                    metadata: attributes.metadata@,
                    fields: accepted(self.format(), field_views(attributes.fields@)),
                    parent: match parent {
                        Some(p) => if p < old(scopes)@.len() { Some(p) } else { None },
                        None => None,
                    },
                    closed: false,
                },
            ),
    {
        let fields = RecordedFields::from_attributes(&self.event_format, &attributes);
        scopes.begin_scope(parent, attributes.metadata, fields)
    }

    /// Appends to the scope `id` the fields of `record` that the layout does
    /// not veto. Returns whether `id` names a scope.
    pub fn on_record(&self, scopes: &mut ScopeStack, id: usize, record: &Record) -> (r: bool)
        ensures
            r == (id < old(scopes)@.len()),
            r ==> final(scopes)@ == old(scopes)@.update(
                id as int,
                ScopeView {
                    fields: old(scopes)@[id as int].fields + accepted(
                        self.format(),
                        field_views(record.fields@),
                    ),
                    ..old(scopes)@[id as int]
                },
            ),
            !r ==> final(scopes)@ == old(scopes)@,
    {
        scopes.record(id, &self.event_format, record)
    }

    /// The bytes to write for `event`.
    pub fn on_event(&self, event: &Event, ctx: &Context) -> (r: Vec<u8>)
        ensures
            self.writes(event@, ctx.event_scope(), text_view(ctx.thread_name), r@),
    {
        self.write_event(event, ctx)
    }
}

} // verus!
