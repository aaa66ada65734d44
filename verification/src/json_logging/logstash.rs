//! The Logstash layout of a log record.
use vstd::prelude::*;
use vstd::string::*;
use crate::json::{append_decimal, decimal};
use crate::json_logging::DisplayLevelFilter;
use crate::json_logging::Level;
use crate::json_logging::fields::{
    Event, EventView, Field, FieldView, Metadata, MetadataView, RecordedFields, RecordedValue,
    Value, accepted, field_views,
};
use crate::json_logging::format::{
    DefaultSpanFormat, FieldFilter, FormatEvent, FormatSpan, LogRecord, LogRecordView, NameSet,
    format_span_list, first_value, fresh_fields, last_value, lemma_entries_concat,
    lemma_fresh_fields, lemma_last_value_names, lemma_single_entry, names_of, new_number_field,
    occurrences, or_else, new_text_field, number_field, span_list, text_field, text_view,
    write_extension_fields,
};
use crate::json_logging::scope::{Context, ScopeView};

verus! {

/// The number under which a level is logged.
pub open spec fn level_number(level: Level) -> u64 {
    match level {
        Level::Error => 3,
        Level::Warn => 4,
        Level::Info => 5,
        Level::Trace => 6,
        Level::Debug => 7,
    }
}

/// The number under which a level is logged.
pub fn level_value(level: &Level) -> (r: u64)
    ensures
        r == level_number(*level),
{
    match *level {
        Level::Error => 3,
        Level::Warn => 4,
        Level::Info => 5,
        Level::Trace => 6,
        Level::Debug => 7,
    }
}

/// What a `LogstashFormat` shows.
pub struct LogstashConfig {
    pub version: bool,
    pub timestamp: bool,
    pub logger_name: bool,
    pub thread_name: bool,
    pub level: bool,
    pub level_value: bool,
    pub span_list: Option<DisplayLevelFilter>,
    pub stack_trace: Option<DisplayLevelFilter>,
}

/// Lays out an event with the envelope that Logstash expects.
#[derive(Debug)]
pub struct LogstashFormat<SF = DefaultSpanFormat> {
    display_version: bool,
    display_timestamp: bool,
    display_logger_name: bool,
    display_thread_name: bool,
    display_level: bool,
    display_level_value: bool,
    display_span_list: Option<DisplayLevelFilter>,
    display_stack_trace: Option<DisplayLevelFilter>,
    span_format: SF,
}

impl<SF> LogstashFormat<SF> {
    /// What the format shows.
    pub closed spec fn config(&self) -> LogstashConfig {
        LogstashConfig {
            version: self.display_version,
            timestamp: self.display_timestamp,
            logger_name: self.display_logger_name,
            thread_name: self.display_thread_name,
            level: self.display_level,
            level_value: self.display_level_value,
            span_list: self.display_span_list,
            stack_trace: self.display_stack_trace,
        }
    }

    /// The format of the spans in the span list.
    pub closed spec fn span_formatter(&self) -> SF {
        self.span_format
    }

    /// Sets whether the time of the event is shown.
    pub fn with_timestamp(self, display_timestamp: bool) -> (r: Self)
        ensures
            r.config() == (LogstashConfig { timestamp: display_timestamp, ..self.config() }),
            r.span_formatter() == self.span_formatter(),
    {
        Self { display_timestamp, ..self }
    }

    /// Sets whether the version of the layout is shown.
    pub fn with_version(self, display_version: bool) -> (r: Self)
        ensures
            r.config() == (LogstashConfig { version: display_version, ..self.config() }),
            r.span_formatter() == self.span_formatter(),
    {
        Self { display_version, ..self }
    }

    /// Sets whether the target of the event is shown as the logger's name.
    pub fn with_logger_name(self, display_logger_name: bool) -> (r: Self)
        ensures
            r.config() == (LogstashConfig { logger_name: display_logger_name, ..self.config() }),
            r.span_formatter() == self.span_formatter(),
    {
        Self { display_logger_name, ..self }
    }

    /// Sets whether the name of the thread is shown.
    pub fn with_thread_name(self, display_thread_name: bool) -> (r: Self)
        ensures
            r.config() == (LogstashConfig { thread_name: display_thread_name, ..self.config() }),
            r.span_formatter() == self.span_formatter(),
    {
        Self { display_thread_name, ..self }
    }

    /// Sets whether the level of the event is shown by name.
    pub fn with_level(self, display_level: bool) -> (r: Self)
        ensures
            r.config() == (LogstashConfig { level: display_level, ..self.config() }),
            r.span_formatter() == self.span_formatter(),
    {
        Self { display_level, ..self }
    }

    /// Sets whether the level of the event is shown by number.
    pub fn with_level_value(self, display_level_value: bool) -> (r: Self)
        ensures
            r.config() == (LogstashConfig { level_value: display_level_value, ..self.config() }),
            r.span_formatter() == self.span_formatter(),
    {
        Self { display_level_value, ..self }
    }

    /// Sets whether the enclosing spans are listed, and which of them.
    pub fn with_span_list(self, display_span_list: Option<DisplayLevelFilter>) -> (r: Self)
        ensures
            r.config() == (LogstashConfig { span_list: display_span_list, ..self.config() }),
            r.span_formatter() == self.span_formatter(),
    {
        Self { display_span_list, ..self }
    }

    /// Sets whether a stack trace is shown, and for which events.
    pub fn with_stack_trace(self, display_stack_trace: Option<DisplayLevelFilter>) -> (r: Self)
        ensures
            r.config() == (LogstashConfig { stack_trace: display_stack_trace, ..self.config() }),
            r.span_formatter() == self.span_formatter(),
    {
        Self { display_stack_trace, ..self }
    }

    /// Replaces the format of the spans in the span list.
    pub fn span_format<FS2>(self, span_format: FS2) -> (r: LogstashFormat<FS2>)
        ensures
            r.config() == self.config(),
            r.span_formatter() == span_format,
    {
        LogstashFormat {
            display_version: self.display_version,
            display_timestamp: self.display_timestamp,
            display_logger_name: self.display_logger_name,
            display_thread_name: self.display_thread_name,
            display_level: self.display_level,
            display_stack_trace: self.display_stack_trace,
            display_level_value: self.display_level_value,
            display_span_list: self.display_span_list,
            span_format,
        }
    }
}

impl LogstashFormat {
    /// What the format shows unless it is told otherwise: the whole envelope,
    /// without span list and stack trace.
    pub open spec fn default_config() -> LogstashConfig {
        LogstashConfig {
            version: true,
            timestamp: true,
            logger_name: true,
            thread_name: true,
            level: true,
            level_value: true,
            span_list: None,
            stack_trace: None,
        }
    }
}

impl Default for LogstashFormat {
    fn default() -> (r: LogstashFormat)
        ensures
            r.config() == LogstashFormat::default_config(),
            !r.span_formatter().shows_location(),
            !r.span_formatter().shows_fields(),
    {
        LogstashFormat {
            display_version: true,
            display_timestamp: true,
            display_logger_name: true,
            display_thread_name: true,
            display_level: true,
            display_level_value: true,
            display_stack_trace: None,
            display_span_list: None,
            span_format: DefaultSpanFormat::default(),
        }
    }
}

/// One line of a stack trace: the target, then the source file and line in
/// brackets.
pub open spec fn stack_line(site: MetadataView) -> Seq<char> {
    site.target + seq!['('] + (match site.file {
        Some(f) => f,
        None => "<unknown>"@,
    }) + seq![':'] + decimal(
        match site.line {
            Some(l) => l as nat,
            None => 0,
        },
    ) + seq![')']
}

/// The lines of the scopes `scope`, given innermost first: the outermost scope
/// comes first, and each line ends with a line feed.
pub open spec fn scope_lines(scope: Seq<ScopeView>) -> Seq<char>
    decreases scope.len(),
{
    if scope.len() == 0 {
        Seq::empty()
    } else {
        stack_line(scope.last().metadata) + seq!['\n'] + scope_lines(scope.drop_last())
    }
}

/// The stack trace of an event: one line for each enclosing scope from the
/// root down, then the line of the event itself.
pub open spec fn stack_trace(site: MetadataView, scope: Seq<ScopeView>) -> Seq<char> {
    scope_lines(scope) + stack_line(site)
}

fn append_line(stack_trace: &mut String, metadata: &Metadata)
    ensures
        final(stack_trace)@ == old(stack_trace)@ + stack_line(metadata@),
{
    proof {
        reveal_strlit("(");
        reveal_strlit(":");
        reveal_strlit(")");
    }
    stack_trace.append(metadata.target.as_str());
    stack_trace.append("(");
    match &metadata.file {
        Some(file) => stack_trace.append(file.as_str()),
        None => stack_trace.append("<unknown>"),
    }
    stack_trace.append(":");
    let line: u32 = match metadata.line {
        Some(line) => line,
        None => 0,
    };
    append_decimal(stack_trace, line as u64);
    stack_trace.append(")");
    assert(stack_trace@ =~= old(stack_trace)@ + stack_line(metadata@));
}

/// The stack trace of `event`: one line for each enclosing scope from the root
/// down, then the line of the event itself, with a line feed between lines.
pub fn format_stack_trace(event: &Event, ctx: &Context) -> (r: String)
    ensures
        r@ == stack_trace(event@.metadata, ctx.event_scope()),
{
    let ids = ctx.scopes.event_scope(ctx.current);
    let ghost scope = ctx.event_scope();
    let mut out = String::new();
    let mut i: usize = ids.len();
    proof {
        reveal_strlit("\n");
        assert(scope.take(i as int) =~= scope);
    }
    while i > 0
        invariant
            i <= ids@.len(),
            scope == ctx.event_scope(),
            scope.len() == ids@.len(),
            ids@ == crate::json_logging::scope::lineage(ctx.scopes@, ctx.current),
            forall|k: int| 0 <= k < ids@.len() ==> #[trigger] ids@[k] < ctx.scopes@.len(),
            "\n"@ == seq!['\n'],
            out@ + scope_lines(scope.take(i as int)) == scope_lines(scope),
        decreases i,
    {
        let ghost before = out@;
        i -= 1;
        let span = ctx.scopes.get(ids[i]);
        append_line(&mut out, &span.metadata);
        out.append("\n");
        proof {
            let prefix = scope.take(i + 1);
            assert(prefix.drop_last() =~= scope.take(i as int));
            assert(prefix.last() == span@);
            assert(out@ + scope_lines(scope.take(i as int)) =~= before + scope_lines(prefix));
        }
    }
    assert(scope.take(0) =~= Seq::<ScopeView>::empty());
    append_line(&mut out, &event.metadata);
    assert(out@ =~= stack_trace(event@.metadata, scope));
    out
}

/// The names of the envelope, which no field of an event or a span may take.
pub open spec fn reserved_names() -> Set<Seq<char>> {
    set![
        "@version"@,
        "@timestamp"@,
        "thread_name"@,
        "logger_name"@,
        "level"@,
        "level_value"@,
        "stack_trace"@,
        "spans"@,
    ]
}

/// `field` if it is shown, and nothing otherwise.
pub open spec fn shown(show: bool, field: FieldView) -> Seq<FieldView> {
    if show {
        seq![field]
    } else {
        Seq::empty()
    }
}

fn push_shown(out: &mut Vec<Field>, show: bool, field: Field)
    ensures
        field_views(final(out)@) == field_views(old(out)@) + shown(show, field@),
{
    if show {
        out.push(field);
    }
    assert(field_views(out@) =~= field_views(old(out)@) + shown(show, field@));
}

/// Whether an event of severity `level` gets a stack trace.
pub open spec fn traced(filter: Option<DisplayLevelFilter>, level: Level) -> bool {
    match filter {
        Some(f) => f.enables(level, level),
        None => false,
    }
}

/// The envelope of a record.
pub open spec fn envelope(
    config: LogstashConfig,
    event: EventView,
    scope: Seq<ScopeView>,
    thread_name: Option<Seq<char>>,
    timestamp: Seq<char>,
) -> Seq<FieldView> {
    shown(config.version, text_field("@version"@, "1"@)) + shown(
        config.timestamp,
        text_field("@timestamp"@, timestamp),
    ) + shown(
        config.thread_name && thread_name is Some,
        text_field("thread_name"@, thread_name->0),
    ) + shown(config.logger_name, text_field("logger_name"@, event.metadata.target)) + shown(
        config.level,
        text_field("level"@, event.metadata.level.name()),
    ) + shown(
        config.level_value,
        number_field("level_value"@, level_number(event.metadata.level)),
    ) + shown(
        traced(config.stack_trace, event.metadata.level),
        text_field("stack_trace"@, stack_trace(event.metadata, scope)),
    )
}

/// The fields written for a chain of recorders, read one after the other,
/// when the names in `seen` are already taken: each name is written once,
/// with the value that is met first.
pub open spec fn merged(seen: Set<Seq<char>>, sources: Seq<Seq<FieldView>>) -> Seq<FieldView>
    decreases sources.len(),
{
    if sources.len() == 0 {
        Seq::empty()
    } else {
        fresh_fields(seen, sources[0]) + merged(seen.union(names_of(sources[0])), sources.skip(1))
    }
}

/// The recorded fields of the scopes `scope`, in the same order.
pub open spec fn scope_fields(scope: Seq<ScopeView>) -> Seq<Seq<FieldView>> {
    scope.map_values(|s: ScopeView| s.fields)
}

impl<SF: FormatSpan> LogstashFormat<SF> {
    /// The record of `event`, raised at the time `timestamp` on the thread
    /// `thread_name` inside the scopes `scope`, innermost first.
    pub open spec fn record(
        &self,
        event: EventView,
        scope: Seq<ScopeView>,
        thread_name: Option<Seq<char>>,
        timestamp: Seq<char>,
    ) -> LogRecordView {
        LogRecordView {
            envelope: envelope(self.config(), event, scope, thread_name, timestamp),
            spans: match self.config().span_list {
                Some(filter) => Some(
                    span_list(self.span_formatter(), filter, event.metadata.level, scope),
                ),
                None => None,
            },
            fields: merged(
                reserved_names(),
                seq![accepted(*self, event.fields)] + scope_fields(scope),
            ),
        }
    }

    /// Lays out `event` as a log record that carries the time `timestamp`.
    pub fn record_with(&self, event: &Event, ctx: &Context, timestamp: &str) -> (r: LogRecord)
        ensures
            r@ == self.record(event@, ctx.event_scope(), text_view(ctx.thread_name), timestamp@),
    {
        let head = self.envelope_fields(event, ctx, timestamp);
        let spans = match self.display_span_list {
            Some(filter) => Some(format_span_list(&self.span_format, event, ctx, filter)),
            None => None,
        };
        let fields = self.merged_fields(event, ctx);
        LogRecord { envelope: head, spans, fields }
    }

    fn envelope_fields(&self, event: &Event, ctx: &Context, timestamp: &str) -> (r: Vec<Field>)
        ensures
            field_views(r@) == envelope(
                self.config(),
                event@,
                ctx.event_scope(),
                text_view(ctx.thread_name),
                timestamp@,
            ),
    {
        let level = event.metadata.level;
        let mut head: Vec<Field> = Vec::new();
        assert(field_views(head@) =~= Seq::<FieldView>::empty());
        push_shown(&mut head, self.display_version, new_text_field("@version", "1"));
        assert(field_views(head@) =~= shown(self.display_version, text_field("@version"@, "1"@)));
        push_shown(&mut head, self.display_timestamp, new_text_field("@timestamp", timestamp));
        match &ctx.thread_name {
            Some(name) => {
                push_shown(
                    &mut head,
                    self.display_thread_name,
                    new_text_field("thread_name", name.as_str()),
                );
            },
            None => {
                assert(field_views(head@) =~= field_views(head@) + Seq::<FieldView>::empty());
            },
        }
        push_shown(
            &mut head,
            self.display_logger_name,
            new_text_field("logger_name", event.metadata.target.as_str()),
        );
        push_shown(&mut head, self.display_level, new_text_field("level", level.as_str()));
        push_shown(
            &mut head,
            self.display_level_value,
            new_number_field("level_value", level_value(&level)),
        );
        let with_trace = match self.display_stack_trace {
            Some(filter) => filter.is_enabled(level, level),
            None => false,
        };
        if with_trace {
            let trace = format_stack_trace(event, ctx);
            push_shown(&mut head, true, new_text_field("stack_trace", trace.as_str()));
        } else {
            assert(field_views(head@) =~= field_views(head@) + Seq::<FieldView>::empty());
        }
        head
    }

    fn merged_fields(&self, event: &Event, ctx: &Context) -> (r: Vec<Field>)
        ensures
            field_views(r@) == merged(
                reserved_names(),
                seq![accepted(*self, event@.fields)] + scope_fields(ctx.event_scope()),
            ),
    {
        let ghost scope = ctx.event_scope();
        let ghost sources = seq![accepted(*self, event@.fields)] + scope_fields(scope);
        let mut seen = NameSet::new();
        seen.insert("@version".to_owned());
        seen.insert("@timestamp".to_owned());
        seen.insert("thread_name".to_owned());
        seen.insert("logger_name".to_owned());
        seen.insert("level".to_owned());
        seen.insert("level_value".to_owned());
        seen.insert("stack_trace".to_owned());
        seen.insert("spans".to_owned());
        assert(seen@ =~= reserved_names());
        let mut out: Vec<Field> = Vec::new();
        let event_fields = RecordedFields::from_event(self, event);
        write_extension_fields(&mut seen, &mut out, &event_fields);
        proof {
            assert(sources.skip(1) =~= scope_fields(scope));
            assert(field_views(out@) =~= fresh_fields(reserved_names(), sources[0]));
            assert(scope_fields(scope).skip(0) =~= scope_fields(scope));
        }
        let ids = ctx.scopes.event_scope(ctx.current);
        let mut i: usize = 0;
        while i < ids.len()
            invariant
                i <= ids@.len(),
                scope == ctx.event_scope(),
                scope.len() == ids@.len(),
                ids@ == crate::json_logging::scope::lineage(ctx.scopes@, ctx.current),
                forall|k: int| 0 <= k < ids@.len() ==> #[trigger] ids@[k] < ctx.scopes@.len(),
                sources == seq![accepted(*self, event@.fields)] + scope_fields(scope),
                field_views(out@) + merged(seen@, scope_fields(scope).skip(i as int)) == merged(
                    reserved_names(),
                    sources,
                ),
            decreases ids.len() - i,
        {
            let span = ctx.scopes.get(ids[i]);
            let ghost before = field_views(out@);
            let ghost seen1 = seen@;
            write_extension_fields(&mut seen, &mut out, &span.fields);
            proof {
                let rest = scope_fields(scope).skip(i as int);
                assert(rest[0] == span@.fields);
                assert(rest.skip(1) =~= scope_fields(scope).skip(i + 1));
                assert(field_views(out@) + merged(seen@, scope_fields(scope).skip(i + 1)) =~= before
                    + merged(seen1, rest));
            }
            i += 1;
        }
        assert(scope_fields(scope).skip(i as int) =~= Seq::<Seq<FieldView>>::empty());
        assert(field_views(out@) + Seq::<FieldView>::empty() =~= field_views(out@));
        out
    }
}

/// The value under which `name` is met first in a chain of recorders: the
/// newest value in the first recorder that holds the name.
pub open spec fn source_value(sources: Seq<Seq<FieldView>>, name: Seq<char>) -> Option<Value>
    decreases sources.len(),
{
    if sources.len() == 0 {
        None
    } else {
        or_else(last_value(sources[0], name), source_value(sources.skip(1), name))
    }
}

/// Of a chain of recorders, a name that is already taken is not written; any
/// other name is written once if a recorder holds it, with the value under
/// which it is met first.
pub proof fn lemma_merged(seen: Set<Seq<char>>, sources: Seq<Seq<FieldView>>, name: Seq<char>)
    ensures
        occurrences(merged(seen, sources), name) == (if !seen.contains(name) && source_value(
            sources,
            name,
        ) is Some {
            1nat
        } else {
            0nat
        }),
        first_value(merged(seen, sources), name) == (if seen.contains(name) {
            None
        } else {
            source_value(sources, name)
        }),
    decreases sources.len(),
{
    if sources.len() > 0 {
        let head = fresh_fields(seen, sources[0]);
        let tail = merged(seen.union(names_of(sources[0])), sources.skip(1));
        lemma_fresh_fields(seen, sources[0], name);
        lemma_merged(seen.union(names_of(sources[0])), sources.skip(1), name);
        lemma_entries_concat(head, tail, name);
        lemma_last_value_names(sources[0], name);
    }
}

/// Every name of the envelope is a reserved name.
pub proof fn lemma_envelope_reserved(
    config: LogstashConfig,
    event: EventView,
    scope: Seq<ScopeView>,
    thread_name: Option<Seq<char>>,
    timestamp: Seq<char>,
    name: Seq<char>,
)
    requires
        !reserved_names().contains(name),
    ensures
        occurrences(envelope(config, event, scope, thread_name, timestamp), name) == 0,
{
    let a = shown(config.version, text_field("@version"@, "1"@));
    let b = shown(config.timestamp, text_field("@timestamp"@, timestamp));
    let c = shown(
        config.thread_name && thread_name is Some,
        text_field("thread_name"@, thread_name->0),
    );
    let d = shown(config.logger_name, text_field("logger_name"@, event.metadata.target));
    let e = shown(config.level, text_field("level"@, event.metadata.level.name()));
    let f = shown(
        config.level_value,
        number_field("level_value"@, level_number(event.metadata.level)),
    );
    let g = shown(
        traced(config.stack_trace, event.metadata.level),
        text_field("stack_trace"@, stack_trace(event.metadata, scope)),
    );
    lemma_shown_other(config.version, text_field("@version"@, "1"@), name);
    lemma_shown_other(config.timestamp, text_field("@timestamp"@, timestamp), name);
    lemma_shown_other(
        config.thread_name && thread_name is Some,
        text_field("thread_name"@, thread_name->0),
        name,
    );
    lemma_shown_other(config.logger_name, text_field("logger_name"@, event.metadata.target), name);
    lemma_shown_other(config.level, text_field("level"@, event.metadata.level.name()), name);
    lemma_shown_other(
        config.level_value,
        number_field("level_value"@, level_number(event.metadata.level)),
        name,
    );
    lemma_shown_other(
        traced(config.stack_trace, event.metadata.level),
        text_field("stack_trace"@, stack_trace(event.metadata, scope)),
        name,
    );
    lemma_entries_concat(a, b, name);
    lemma_entries_concat(a + b, c, name);
    lemma_entries_concat(a + b + c, d, name);
    lemma_entries_concat(a + b + c + d, e, name);
    lemma_entries_concat(a + b + c + d + e, f, name);
    lemma_entries_concat(a + b + c + d + e + f, g, name);
}

proof fn lemma_shown_other(show: bool, field: FieldView, name: Seq<char>)
    requires
        field.name != name,
    ensures
        occurrences(shown(show, field), name) == 0,
{
    lemma_single_entry(field, name);
}

/// In the record of an event, a field of the event whose name is not reserved
/// is written exactly once among the fields, with the value that the event
/// recorded last for it, whatever the enclosing scopes hold under that name;
/// and the envelope does not use the name.
pub proof fn lemma_event_field_wins<SF: FormatSpan>(
    format: LogstashFormat<SF>,
    event: EventView,
    scope: Seq<ScopeView>,
    thread_name: Option<Seq<char>>,
    timestamp: Seq<char>,
    name: Seq<char>,
)
    requires
        !reserved_names().contains(name),
        last_value(event.fields, name) is Some,
    ensures
        occurrences(format.record(event, scope, thread_name, timestamp).fields, name) == 1,
        first_value(format.record(event, scope, thread_name, timestamp).fields, name) == last_value(
            event.fields,
            name,
        ),
        occurrences(format.record(event, scope, thread_name, timestamp).envelope, name) == 0,
        name != "spans"@,
{
    lemma_accepts_all(format, event.fields);
    let sources = seq![event.fields] + scope_fields(scope);
    lemma_merged(reserved_names(), sources, name);
    lemma_envelope_reserved(format.config(), event, scope, thread_name, timestamp, name);
}

/// In the record of an event, no name is written twice among the fields, and
/// none of them is a reserved name; a name that neither the event nor a scope
/// holds is not written.
pub proof fn lemma_record_names<SF: FormatSpan>(
    format: LogstashFormat<SF>,
    event: EventView,
    scope: Seq<ScopeView>,
    thread_name: Option<Seq<char>>,
    timestamp: Seq<char>,
    name: Seq<char>,
)
    ensures
        occurrences(format.record(event, scope, thread_name, timestamp).fields, name) <= 1,
        reserved_names().contains(name) ==> occurrences(
            format.record(event, scope, thread_name, timestamp).fields,
            name,
        ) == 0,
        first_value(format.record(event, scope, thread_name, timestamp).fields, name) == (
        if reserved_names().contains(name) {
            None
        } else {
            source_value(seq![event.fields] + scope_fields(scope), name)
        }),
{
    lemma_accepts_all(format, event.fields);
    lemma_merged(reserved_names(), seq![event.fields] + scope_fields(scope), name);
}

/// The Logstash layout turns no field down.
pub proof fn lemma_accepts_all<SF>(format: LogstashFormat<SF>, fields: Seq<FieldView>)
    ensures
        accepted(format, fields) == fields,
    decreases fields.len(),
{
    reveal(Seq::filter);
    if fields.len() > 0 {
        lemma_accepts_all(format, fields.drop_last());
        assert(fields.drop_last().push(fields.last()) =~= fields);
    }
}

/// A name that only the last recorder of a chain holds is met there.
pub proof fn lemma_source_value_last(sources: Seq<Seq<FieldView>>, name: Seq<char>)
    requires
        sources.len() > 0,
        forall|i: int| 0 <= i < sources.len() - 1 ==> last_value(#[trigger] sources[i], name) is None,
    ensures
        source_value(sources, name) == last_value(sources.last(), name),
    decreases sources.len(),
{
    if sources.len() == 1 {
        assert(source_value(sources.skip(1), name) is None);
    } else {
        let rest = sources.skip(1);
        assert forall|i: int| 0 <= i < rest.len() - 1 implies last_value(
            #[trigger] rest[i],
            name,
        ) is None by {
            assert(rest[i] == sources[i + 1]);
        }
        lemma_source_value_last(rest, name);
        assert(rest.last() == sources.last());
        assert(last_value(sources[0], name) is None);
    }
}

/// A field of the outermost scope reaches every event raised inside it: if
/// neither the event nor a scope further in holds the name, and the name is not
/// reserved, the record of the event holds the field exactly once, with the
/// value that the outermost scope recorded last.
pub proof fn lemma_outer_field_shows<SF: FormatSpan>(
    format: LogstashFormat<SF>,
    event: EventView,
    scope: Seq<ScopeView>,
    thread_name: Option<Seq<char>>,
    timestamp: Seq<char>,
    name: Seq<char>,
)
    requires
        !reserved_names().contains(name),
        scope.len() > 0,
        last_value(scope.last().fields, name) is Some,
        last_value(event.fields, name) is None,
        forall|i: int|
            0 <= i < scope.len() - 1 ==> last_value((#[trigger] scope[i]).fields, name) is None,
    ensures
        occurrences(format.record(event, scope, thread_name, timestamp).fields, name) == 1,
        first_value(format.record(event, scope, thread_name, timestamp).fields, name) == last_value(
            scope.last().fields,
            name,
        ),
{
    lemma_accepts_all(format, event.fields);
    let sources = seq![event.fields] + scope_fields(scope);
    assert forall|i: int| 0 <= i < sources.len() - 1 implies last_value(
        #[trigger] sources[i],
        name,
    ) is None by {
        if i > 0 {
            assert(sources[i] == scope[i - 1].fields);
        }
    }
    assert(sources.last() == scope.last().fields);
    lemma_source_value_last(sources, name);
    lemma_merged(reserved_names(), sources, name);
}

/// A stack trace is never empty: it holds at least the line of the event, and
/// a line holds at least its brackets and its colon.
pub proof fn lemma_stack_trace_not_empty(site: MetadataView, scope: Seq<ScopeView>)
    ensures
        stack_trace(site, scope).len() >= 3,
{
}

/// An event whose severity passes the filter set for stack traces has in its
/// envelope exactly one stack trace, which is not empty; any other event has
/// none.
pub proof fn lemma_stack_trace_shown(
    config: LogstashConfig,
    event: EventView,
    scope: Seq<ScopeView>,
    thread_name: Option<Seq<char>>,
    timestamp: Seq<char>,
)
    ensures
        traced(config.stack_trace, event.metadata.level) ==> first_value(
            envelope(config, event, scope, thread_name, timestamp),
            "stack_trace"@,
        ) == Some(Value::String(stack_trace(event.metadata, scope))),
        occurrences(envelope(config, event, scope, thread_name, timestamp), "stack_trace"@) == (
        if traced(config.stack_trace, event.metadata.level) {
            1nat
        } else {
            0nat
        }),
        stack_trace(event.metadata, scope).len() > 0,
{
    let name = "stack_trace"@;
    reveal_strlit("stack_trace");
    reveal_strlit("@version");
    reveal_strlit("@timestamp");
    reveal_strlit("thread_name");
    reveal_strlit("logger_name");
    reveal_strlit("level");
    reveal_strlit("level_value");
    let a = shown(config.version, text_field("@version"@, "1"@));
    let b = shown(config.timestamp, text_field("@timestamp"@, timestamp));
    let c = shown(
        config.thread_name && thread_name is Some,
        text_field("thread_name"@, thread_name->0),
    );
    let d = shown(config.logger_name, text_field("logger_name"@, event.metadata.target));
    let e = shown(config.level, text_field("level"@, event.metadata.level.name()));
    let f = shown(
        config.level_value,
        number_field("level_value"@, level_number(event.metadata.level)),
    );
    let trace = text_field("stack_trace"@, stack_trace(event.metadata, scope));
    let g = shown(traced(config.stack_trace, event.metadata.level), trace);
    assert("@version"@.len() != name.len());
    assert("@timestamp"@.len() != name.len());
    assert("thread_name"@[0] != name[0]);
    assert("logger_name"@[0] != name[0]);
    assert("level"@.len() != name.len());
    assert("level_value"@[0] != name[0]);
    lemma_shown_other(config.version, text_field("@version"@, "1"@), name);
    lemma_shown_other(config.timestamp, text_field("@timestamp"@, timestamp), name);
    lemma_shown_other(
        config.thread_name && thread_name is Some,
        text_field("thread_name"@, thread_name->0),
        name,
    );
    lemma_shown_other(config.logger_name, text_field("logger_name"@, event.metadata.target), name);
    lemma_shown_other(config.level, text_field("level"@, event.metadata.level.name()), name);
    lemma_shown_other(
        config.level_value,
        number_field("level_value"@, level_number(event.metadata.level)),
        name,
    );
    lemma_single_entry(trace, name);
    lemma_entries_concat(a, b, name);
    lemma_entries_concat(a + b, c, name);
    lemma_entries_concat(a + b + c, d, name);
    lemma_entries_concat(a + b + c + d, e, name);
    lemma_entries_concat(a + b + c + d + e, f, name);
    lemma_entries_concat(a + b + c + d + e + f, g, name);
    lemma_shown_first(config.version, text_field("@version"@, "1"@), name);
    lemma_shown_first(config.timestamp, text_field("@timestamp"@, timestamp), name);
    lemma_shown_first(
        config.thread_name && thread_name is Some,
        text_field("thread_name"@, thread_name->0),
        name,
    );
    lemma_shown_first(config.logger_name, text_field("logger_name"@, event.metadata.target), name);
    lemma_shown_first(config.level, text_field("level"@, event.metadata.level.name()), name);
    lemma_shown_first(
        config.level_value,
        number_field("level_value"@, level_number(event.metadata.level)),
        name,
    );
}

proof fn lemma_shown_first(show: bool, field: FieldView, name: Seq<char>)
    requires
        field.name != name,
    ensures
        first_value(shown(show, field), name) is None,
{
    lemma_single_entry(field, name);
}

/// The time of the local clock in the RFC 3339 form, with as many digits of
/// the second's fraction as the clock gives, by `chrono::Local::now` and
/// `DateTime::to_rfc3339_opts`. Nothing is claimed of the text.
#[verifier::external_body]
fn local_timestamp() -> String {
    chrono::Local::now().to_rfc3339_opts(chrono::SecondsFormat::AutoSi, true)
}

impl<SF> FieldFilter for LogstashFormat<SF> {
    open spec fn accepts(&self, name: Seq<char>, value: Value) -> bool {
        true
    }

    fn accept_field(&self, name: &str, value: &RecordedValue) -> (r: bool) {
        true
    }
}

impl<SF: FormatSpan> FormatEvent for LogstashFormat<SF> {
    open spec fn formats(
        &self,
        event: EventView,
        scope: Seq<ScopeView>,
        thread_name: Option<Seq<char>>,
        record: LogRecordView,
    ) -> bool {
        exists|timestamp: Seq<char>|
            record == #[trigger] self.record(event, scope, thread_name, timestamp)
    }

    fn format_event(&self, event: &Event, ctx: &Context) -> (r: LogRecord) {
        let timestamp = if self.display_timestamp {
            local_timestamp()
        } else {
            String::new()
        };
        self.record_with(event, ctx, timestamp.as_str())
    }
}

} // verus!
