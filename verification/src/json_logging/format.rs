//! How spans and events are laid out in a log record.
use vstd::prelude::*;
use vstd::string::*;
use crate::json::{
    append_members, append_object, append_separator, append_string, array_text, joined, json_string,
    lemma_joined_push, member_texts, object_text,
};
use crate::json_logging::DisplayLevelFilter;
use crate::json_logging::Level;
use crate::json_logging::fields::{
    Event, EventView, Field, FieldView, RecordedFields, RecordedValue, Value, field_views,
};
use crate::json_logging::scope::{Context, Scope, ScopeView};

verus! {

/// A set of field names.
#[derive(Debug)]
pub struct NameSet {
    names: Vec<String>,
}

impl View for NameSet {
    type V = Set<Seq<char>>;

    closed spec fn view(&self) -> Set<Seq<char>> {
        Set::new(|n: Seq<char>| holds(self.names@, n))
    }
}

/// Whether `name` is one of `names`.
spec fn holds(names: Seq<String>, name: Seq<char>) -> bool {
    exists|i: int| 0 <= i < names.len() && (#[trigger] names[i])@ == name
}

impl NameSet {
    #[verifier::type_invariant]
    spec fn well_formed(self) -> bool {
        forall|i: int, j: int|
            0 <= i < j < self.names@.len() ==> self.names@[i]@ != self.names@[j]@
    }

    /// The empty set.
    pub fn new() -> (r: NameSet)
        ensures
            r@ == Set::<Seq<char>>::empty(),
    {
        let r = NameSet { names: Vec::new() };
        assert(r@ =~= Set::<Seq<char>>::empty());
        r
    }

    /// Whether `name` is in the set.
    pub fn contains(&self, name: &String) -> (r: bool)
        ensures
            r == self@.contains(name@),
    {
        let mut i: usize = 0;
        while i < self.names.len()
            invariant
                i <= self.names@.len(),
                forall|k: int| 0 <= k < i ==> self.names@[k]@ != name@,
            decreases self.names.len() - i,
        {
            if self.names[i] == *name {
                return true;
            }
            i += 1;
        }
        false
    }

    /// Adds `name`; returns whether it was new.
    pub fn insert(&mut self, name: String) -> (r: bool)
        ensures
            r == !old(self)@.contains(name@),
            final(self)@ == old(self)@.insert(name@),
    {
        if self.contains(&name) {
            assert(self@ =~= self@.insert(name@));
            return false;
        }
        proof {
            use_type_invariant(&*self);
        }
        let mut names: Vec<String> = Vec::new();
        core::mem::swap(&mut self.names, &mut names);
        names.push(name);
        proof {
            let before = old(self).names@;
            assert forall|n: Seq<char>| #[trigger]
                holds(names@, n) <==> (n == name@ || holds(before, n)) by {
                if n == name@ {
                    assert(names@[before.len() as int]@ == n);
                }
                if holds(before, n) {
                    let i = choose|i: int| 0 <= i < before.len() && (#[trigger] before[i])@ == n;
                    assert(names@[i]@ == n);
                }
            }
        }
        core::mem::swap(&mut self.names, &mut names);
        assert(self@ =~= old(self)@.insert(name@));
        true
    }
}

/// The names that occur in `fields`.
pub open spec fn names_of(fields: Seq<FieldView>) -> Set<Seq<char>> {
    Set::new(|n: Seq<char>| exists|k: int| 0 <= k < fields.len() && fields[k].name == n)
}

/// The fields that are written for a recorder holding `fields` when the names
/// in `seen` are already taken: the recorder is read from its newest field to
/// its oldest, and a field is written if its name was not met before.
pub open spec fn fresh_fields(seen: Set<Seq<char>>, fields: Seq<FieldView>) -> Seq<FieldView>
    decreases fields.len(),
{
    if fields.len() == 0 {
        Seq::empty()
    } else if seen.contains(fields.last().name) {
        fresh_fields(seen, fields.drop_last())
    } else {
        seq![fields.last()] + fresh_fields(seen.insert(fields.last().name), fields.drop_last())
    }
}

/// The value of the newest field of `fields` that is named `name`.
pub open spec fn last_value(fields: Seq<FieldView>, name: Seq<char>) -> Option<Value>
    decreases fields.len(),
{
    if fields.len() == 0 {
        None
    } else if fields.last().name == name {
        Some(fields.last().value)
    } else {
        last_value(fields.drop_last(), name)
    }
}

/// The value of the first entry of `entries` that is named `name`.
pub open spec fn first_value(entries: Seq<FieldView>, name: Seq<char>) -> Option<Value>
    decreases entries.len(),
{
    if entries.len() == 0 {
        None
    } else if entries[0].name == name {
        Some(entries[0].value)
    } else {
        first_value(entries.skip(1), name)
    }
}

/// How many entries of `entries` are named `name`.
pub open spec fn occurrences(entries: Seq<FieldView>, name: Seq<char>) -> nat
    decreases entries.len(),
{
    if entries.len() == 0 {
        0
    } else {
        (if entries[0].name == name { 1nat } else { 0nat }) + occurrences(entries.skip(1), name)
    }
}

/// The first of two optional values that is present.
pub open spec fn or_else(first: Option<Value>, second: Option<Value>) -> Option<Value> {
    match first {
        Some(v) => Some(v),
        None => second,
    }
}

/// Counting and looking up in a single entry.
pub proof fn lemma_single_entry(field: FieldView, name: Seq<char>)
    ensures
        occurrences(seq![field], name) == (if field.name == name { 1nat } else { 0nat }),
        first_value(seq![field], name) == (if field.name == name { Some(field.value) } else { None }),
{
    reveal_with_fuel(occurrences, 2);
    reveal_with_fuel(first_value, 2);
    assert(seq![field].skip(1) =~= Seq::<FieldView>::empty());
}

/// Counting and looking up in a concatenation goes part by part.
pub proof fn lemma_entries_concat(a: Seq<FieldView>, b: Seq<FieldView>, name: Seq<char>)
    ensures
        occurrences(a + b, name) == occurrences(a, name) + occurrences(b, name),
        first_value(a + b, name) == or_else(first_value(a, name), first_value(b, name)),
    decreases a.len(),
{
    if a.len() == 0 {
        assert(a + b =~= b);
    } else {
        assert((a + b).skip(1) =~= a.skip(1) + b);
        lemma_entries_concat(a.skip(1), b, name);
    }
}

/// A name occurs in a recorder exactly if the recorder has a newest value for it.
pub proof fn lemma_last_value_names(fields: Seq<FieldView>, name: Seq<char>)
    ensures
        names_of(fields).contains(name) <==> last_value(fields, name) is Some,
    decreases fields.len(),
{
    if fields.len() > 0 {
        let rest = fields.drop_last();
        lemma_last_value_names(rest, name);
        if fields.last().name == name {
            assert(fields[fields.len() - 1].name == name);
        } else {
            if names_of(rest).contains(name) {
                let k = choose|k: int| 0 <= k < rest.len() && rest[k].name == name;
                assert(fields[k].name == name);
            }
            if names_of(fields).contains(name) {
                let k = choose|k: int| 0 <= k < fields.len() && fields[k].name == name;
                assert(rest[k].name == name);
            }
        }
    }
}

/// Of one recorder, a name that is already taken is not written; any other
/// name is written once if the recorder holds it, with the value that was
/// recorded last.
pub proof fn lemma_fresh_fields(seen: Set<Seq<char>>, fields: Seq<FieldView>, name: Seq<char>)
    ensures
        occurrences(fresh_fields(seen, fields), name) == (if !seen.contains(name) && last_value(
            fields,
            name,
        ) is Some {
            1nat
        } else {
            0nat
        }),
        first_value(fresh_fields(seen, fields), name) == (if seen.contains(name) {
            None
        } else {
            last_value(fields, name)
        }),
    decreases fields.len(),
{
    if fields.len() > 0 {
        let last = fields.last();
        let rest = fields.drop_last();
        if seen.contains(last.name) {
            lemma_fresh_fields(seen, rest, name);
        } else {
            let tail = fresh_fields(seen.insert(last.name), rest);
            lemma_fresh_fields(seen.insert(last.name), rest, name);
            lemma_entries_concat(seq![last], tail, name);
            lemma_single_entry(last, name);
        }
    }
}

/// Writes to `out` the fields of `fields` whose names are not in `seen`, the
/// newest first and each name once, and adds their names to `seen`.
pub fn write_extension_fields(seen: &mut NameSet, out: &mut Vec<Field>, fields: &RecordedFields)
    ensures
        field_views(final(out)@) == field_views(old(out)@) + fresh_fields(old(seen)@, fields@),
        final(seen)@ == old(seen)@.union(names_of(fields@)),
{
    let ghost seen0 = seen@;
    let ghost out0 = field_views(out@);
    let mut i: usize = fields.len();
    proof {
        assert(fields@.take(i as int) =~= fields@);
        assert(seen@ =~= seen0.union(names_of(fields@.skip(i as int))));
    }
    while i > 0
        invariant
            i <= fields@.len(),
            field_views(out@) + fresh_fields(seen@, fields@.take(i as int)) == out0 + fresh_fields(
                seen0,
                fields@,
            ),
            seen@ == seen0.union(names_of(fields@.skip(i as int))),
        decreases i,
    {
        let ghost seen1 = seen@;
        let ghost out1 = field_views(out@);
        i -= 1;
        let field = fields.get(i);
        let fresh = seen.insert(field.name.clone());
        if fresh {
            out.push(field.clone());
        }
        proof {
            let prefix = fields@.take(i + 1);
            assert(prefix.drop_last() =~= fields@.take(i as int));
            assert(prefix.last() == fields@[i as int]);
            let rest = fresh_fields(seen@, fields@.take(i as int));
            if fresh {
                assert(field_views(out@) =~= out1 + seq![fields@[i as int]]);
                assert(fresh_fields(seen1, prefix) == seq![fields@[i as int]] + rest);
                assert(field_views(out@) + rest =~= out1 + (seq![fields@[i as int]] + rest));
            } else {
                assert(seen@ =~= seen1);
                assert(fresh_fields(seen1, prefix) == rest);
            }
            let name = fields@[i as int].name;
            assert forall|n: Seq<char>|
                #[trigger] names_of(fields@.skip(i as int)).contains(n) <==> (n == name || names_of(
                    fields@.skip(i + 1),
                ).contains(n)) by {
                let a = fields@.skip(i as int);
                let b = fields@.skip(i + 1);
                if n == name {
                    assert(a[0].name == n);
                }
                if names_of(b).contains(n) {
                    let k = choose|k: int| 0 <= k < b.len() && b[k].name == n;
                    assert(a[k + 1].name == n);
                }
                if names_of(a).contains(n) && n != name {
                    let k = choose|k: int| 0 <= k < a.len() && a[k].name == n;
                    assert(b[k - 1].name == n);
                }
            }
            assert(seen@ =~= seen0.union(names_of(fields@.skip(i as int))));
        }
    }
    proof {
        assert(fields@.take(0) =~= Seq::<FieldView>::empty());
        assert(fields@.skip(0) =~= fields@);
    }
}

/// A field whose value is text.
pub open spec fn text_field(name: Seq<char>, text: Seq<char>) -> FieldView {
    FieldView { name, value: Value::String(text) }
}

/// A field whose value is an unsigned number.
pub open spec fn number_field(name: Seq<char>, number: u64) -> FieldView {
    FieldView { name, value: Value::U64(number) }
}

/// A field named `name` with the text `text`.
pub fn new_text_field(name: &str, text: &str) -> (r: Field)
    ensures
        r@ == text_field(name@, text@),
{
    Field { name: name.to_owned(), value: RecordedValue::String(text.to_owned()) }
}

/// A field named `name` with the number `number`.
pub fn new_number_field(name: &str, number: u64) -> (r: Field)
    ensures
        r@ == number_field(name@, number),
{
    Field { name: name.to_owned(), value: RecordedValue::U64(number) }
}

/// Lays out one span as the entries of a JSON object.
pub trait FormatSpan {
    /// The entries written for `span`, in order.
    spec fn span_entries(&self, span: ScopeView) -> Seq<FieldView>;

    /// The entries written for `span`, in order.
    fn format_span(&self, span: &Scope) -> (r: Vec<Field>)
        ensures
            field_views(r@) == self.span_entries(span@),
    ;
}

/// One log record: the envelope, the list of enclosing spans if it is shown,
/// and the fields of the event and of its scopes.
#[derive(Debug, PartialEq, Eq)]
pub struct LogRecord {
    pub envelope: Vec<Field>,
    pub spans: Option<Vec<Vec<Field>>>,
    pub fields: Vec<Field>,
}

/// What a `LogRecord` stands for in contracts.
pub struct LogRecordView {
    pub envelope: Seq<FieldView>,
    pub spans: Option<Seq<Seq<FieldView>>>,
    pub fields: Seq<FieldView>,
}

impl View for LogRecord {
    type V = LogRecordView;

    open spec fn view(&self) -> LogRecordView {
        LogRecordView {
            envelope: field_views(self.envelope@),
            spans: match self.spans {
                Some(spans) => Some(span_list_views(spans@)),
                None => None,
            },
            fields: field_views(self.fields@),
        }
    }
}

/// The JSON texts of the span objects `spans`.
pub open spec fn span_texts(spans: Seq<Seq<FieldView>>) -> Seq<Seq<char>> {
    spans.map_values(|s: Seq<FieldView>| object_text(s))
}

/// The member of a record that lists the enclosing spans.
pub open spec fn spans_member(spans: Seq<Seq<FieldView>>) -> Seq<char> {
    json_string("spans"@) + seq![':'] + array_text(span_texts(spans))
}

/// The JSON texts of the members of a record: the envelope, the span list if
/// there is one, the fields.
pub open spec fn record_members(record: LogRecordView) -> Seq<Seq<char>> {
    member_texts(record.envelope) + (match record.spans {
        Some(spans) => seq![spans_member(spans)],
        None => Seq::empty(),
    }) + member_texts(record.fields)
}

/// The JSON text of a record: one object, without white space.
pub open spec fn record_text(record: LogRecordView) -> Seq<char> {
    seq!['{'] + joined(record_members(record), ',') + seq!['}']
}

fn append_span_list(out: &mut String, spans: &Vec<Vec<Field>>)
    ensures
        final(out)@ == old(out)@ + array_text(span_texts(span_list_views(spans@))),
{
    proof {
        reveal_strlit("[");
        reveal_strlit("]");
    }
    let ghost texts = span_texts(span_list_views(spans@));
    out.append("[");
    let ghost start = old(out)@ + seq!['['];
    let mut i: usize = 0;
    assert(out@ =~= start + joined(texts.take(0), ','));
    while i < spans.len()
        invariant
            i <= spans@.len(),
            texts == span_texts(span_list_views(spans@)),
            out@ == start + joined(texts.take(i as int), ','),
        decreases spans.len() - i,
    {
        append_separator(out, i == 0);
        append_object(out, &spans[i]);
        proof {
            lemma_joined_push(texts.take(i as int), texts[i as int], ',');
            assert(texts.take(i as int).push(texts[i as int]) =~= texts.take(i + 1));
            assert(out@ =~= start + joined(texts.take(i + 1), ','));
        }
        i += 1;
    }
    assert(texts.take(i as int) =~= texts);
    out.append("]");
    assert(out@ =~= old(out)@ + array_text(texts));
}

impl LogRecord {
    /// The JSON text of the record.
    pub fn to_json(&self) -> (r: String)
        ensures
            r@ == record_text(self@),
    {
        proof {
            reveal_strlit("{");
            reveal_strlit("}");
            reveal_strlit(":");
        }
        let mut out = String::new();
        out.append("{");
        let ghost start = seq!['{'];
        let ghost none = Seq::<Seq<char>>::empty();
        assert(out@ =~= start + joined(none, ','));
        let first = append_members(&mut out, &self.envelope, Ghost(start), Ghost(none), true);
        let ghost head = member_texts(self@.envelope);
        assert(none + head =~= head);
        let ghost middle = match self@.spans {
            Some(spans) => seq![spans_member(spans)],
            None => Seq::empty(),
        };
        let first = match &self.spans {
            Some(spans) => {
                append_separator(&mut out, first);
                append_string(&mut out, "spans");
                out.append(":");
                append_span_list(&mut out, spans);
                proof {
                    lemma_joined_push(head, spans_member(self@.spans->0), ',');
                    assert(head.push(spans_member(self@.spans->0)) =~= head + middle);
                    assert(out@ =~= start + joined(head + middle, ','));
                }
                false
            },
            None => {
                assert(head + middle =~= head);
                first
            },
        };
        append_members(&mut out, &self.fields, Ghost(start), Ghost(head + middle), first);
        out.append("}");
        out
    }
}

/// The view of an optional text.
pub open spec fn text_view(text: Option<String>) -> Option<Seq<char>> {
    match text {
        Some(t) => Some(t@),
        None => None,
    }
}

/// Decides which fields are recorded: a field that is turned down is dropped
/// whole, before it reaches a recorder.
pub trait FieldFilter {
    /// Whether a field is recorded.
    spec fn accepts(&self, name: Seq<char>, value: Value) -> bool;

    /// Whether a field is recorded.
    fn accept_field(&self, name: &str, value: &RecordedValue) -> (r: bool)
        ensures
            r == self.accepts(name@, value@),
    ;
}

/// Lays out one event as a log record.
pub trait FormatEvent: FieldFilter {
    /// Whether `record` is a record of `event`, raised on the thread
    /// `thread_name` inside the scopes `scope`, innermost first.
    spec fn formats(
        &self,
        event: EventView,
        scope: Seq<ScopeView>,
        thread_name: Option<Seq<char>>,
        record: LogRecordView,
    ) -> bool;

    /// Lays out `event` as a log record.
    fn format_event(&self, event: &Event, ctx: &Context) -> (r: LogRecord)
        ensures
            self.formats(event@, ctx.event_scope(), text_view(ctx.thread_name), r@),
    ;
}

/// The names that a span's own fields may not take: the span object uses them.
pub open spec fn reserved_span_fields() -> Set<Seq<char>> {
    set!["name"@, "target"@, "level"@, "file"@, "line"@]
}

/// Shows a span by its name, target and level, and on demand by its source
/// location and its fields.
#[derive(Debug)]
pub struct DefaultSpanFormat {
    display_location: bool,
    display_fields: bool,
}

impl Default for DefaultSpanFormat {
    fn default() -> (r: DefaultSpanFormat)
        ensures
            !r.shows_location(),
            !r.shows_fields(),
    {
        DefaultSpanFormat { display_location: false, display_fields: false }
    }
}

impl DefaultSpanFormat {
    /// Whether the source location of a span is shown.
    pub closed spec fn shows_location(&self) -> bool {
        self.display_location
    }

    /// Whether the fields of a span are shown.
    pub closed spec fn shows_fields(&self) -> bool {
        self.display_fields
    }

    /// Sets whether the source location of a span is shown.
    pub fn with_location(self, display_location: bool) -> (r: Self)
        ensures
            r.shows_location() == display_location,
            r.shows_fields() == self.shows_fields(),
    {
        Self { display_location, ..self }
    }

    /// Sets whether the fields of a span are shown.
    pub fn with_fields(self, display_fields: bool) -> (r: Self)
        ensures
            r.shows_fields() == display_fields,
            r.shows_location() == self.shows_location(),
    {
        Self { display_fields, ..self }
    }
}

/// The source location of a span, as far as it is known.
pub open spec fn location_entries(file: Option<Seq<char>>, line: Option<u32>) -> Seq<FieldView> {
    (match file {
        Some(f) => seq![text_field("file"@, f)],
        None => Seq::empty(),
    }) + (match line {
        Some(l) => seq![number_field("line"@, l as u64)],
        None => Seq::empty(),
    })
}

impl FormatSpan for DefaultSpanFormat {
    open spec fn span_entries(&self, span: ScopeView) -> Seq<FieldView> {
        seq![
            text_field("name"@, span.metadata.name),
            text_field("target"@, span.metadata.target),
            text_field("level"@, span.metadata.level.name()),
        ] + (if self.shows_location() {
            location_entries(span.metadata.file, span.metadata.line)
        } else {
            Seq::empty()
        }) + (if self.shows_fields() {
            fresh_fields(reserved_span_fields(), span.fields)
        } else {
            Seq::empty()
        })
    }

    fn format_span(&self, span: &Scope) -> (r: Vec<Field>) {
        let mut out: Vec<Field> = Vec::new();
        out.push(new_text_field("name", span.metadata.name.as_str()));
        out.push(new_text_field("target", span.metadata.target.as_str()));
        out.push(new_text_field("level", span.metadata.level.as_str()));
        let ghost head = field_views(out@);
        assert(head =~= seq![
            text_field("name"@, span@.metadata.name),
            text_field("target"@, span@.metadata.target),
            text_field("level"@, span@.metadata.level.name()),
        ]);
        if self.display_location {
            match &span.metadata.file {
                Some(file) => {
                    out.push(new_text_field("file", file.as_str()));
                },
                None => {},
            }
            let ghost with_file = field_views(out@);
            match span.metadata.line {
                Some(line) => {
                    out.push(new_number_field("line", line as u64));
                },
                None => {},
            }
            assert(field_views(out@) =~= head + location_entries(
                span@.metadata.file,
                span@.metadata.line,
            ));
        } else {
            assert(field_views(out@) =~= head + Seq::<FieldView>::empty());
        }
        if self.display_fields {
            let mut seen = NameSet::new();
            seen.insert("name".to_owned());
            seen.insert("target".to_owned());
            seen.insert("level".to_owned());
            seen.insert("file".to_owned());
            seen.insert("line".to_owned());
            assert(seen@ =~= reserved_span_fields());
            write_extension_fields(&mut seen, &mut out, &span.fields);
        } else {
            assert(field_views(out@) =~= field_views(out@) + Seq::<FieldView>::empty());
        }
        out
    }
}

/// The views of a list of span objects, in the same order.
pub open spec fn span_list_views(spans: Seq<Vec<Field>>) -> Seq<Seq<FieldView>> {
    spans.map_values(|s: Vec<Field>| field_views(s@))
}

/// The span objects shown for an event of severity `event_level` whose
/// enclosing scopes are `scope`: one for each scope that `filter` lets through.
pub open spec fn span_list<FS: FormatSpan>(
    span_format: FS,
    filter: DisplayLevelFilter,
    event_level: Level,
    scope: Seq<ScopeView>,
) -> Seq<Seq<FieldView>> {
    scope.filter(|s: ScopeView| filter.enables(event_level, s.metadata.level)).map_values(
        |s: ScopeView| span_format.span_entries(s),
    )
}

/// Lays out the scopes that enclose `event`, innermost first, leaving out
/// those that `filter` turns down.
pub fn format_span_list<FS: FormatSpan>(
    span_format: &FS,
    event: &Event,
    ctx: &Context,
    filter: DisplayLevelFilter,
) -> (r: Vec<Vec<Field>>)
    ensures
        span_list_views(r@) == span_list(*span_format, filter, event.metadata.level, ctx.event_scope()),
{
    let ids = ctx.scopes.event_scope(ctx.current);
    let ghost scope = ctx.event_scope();
    let ghost shown = |s: ScopeView| filter.enables(event.metadata.level, s.metadata.level);
    let mut spans: Vec<Vec<Field>> = Vec::new();
    let mut i: usize = 0;
    proof {
        assert(scope.take(0).filter(shown) =~= Seq::<ScopeView>::empty()) by {
            reveal(Seq::filter);
        }
        assert(span_list_views(spans@) =~= span_list(
            *span_format,
            filter,
            event.metadata.level,
            scope.take(0),
        ));
    }
    while i < ids.len()
        invariant
            i <= ids@.len(),
            scope == ctx.event_scope(),
            scope.len() == ids@.len(),
            ids@ == crate::json_logging::scope::lineage(ctx.scopes@, ctx.current),
            forall|k: int| 0 <= k < ids@.len() ==> #[trigger] ids@[k] < ctx.scopes@.len(),
            shown == |s: ScopeView| filter.enables(event.metadata.level, s.metadata.level),
            span_list_views(spans@) == span_list(
                *span_format,
                filter,
                event.metadata.level,
                scope.take(i as int),
            ),
        decreases ids.len() - i,
    {
        let span = ctx.scopes.get(ids[i]);
        let ghost before = span_list_views(spans@);
        if filter.is_enabled(event.metadata.level, span.metadata.level) {
            let entries = span_format.format_span(span);
            spans.push(entries);
            assert(span_list_views(spans@) =~= before.push(span_format.span_entries(span@)));
        }
        proof {
            let prefix = scope.take(i + 1);
            assert(prefix.drop_last() =~= scope.take(i as int));
            assert(prefix.last() == span@);
            reveal(Seq::filter);
            assert(span_list_views(spans@) =~= span_list(
                *span_format,
                filter,
                event.metadata.level,
                prefix,
            ));
        }
        i += 1;
    }
    assert(scope.take(i as int) =~= scope);
    spans
}

} // verus!
