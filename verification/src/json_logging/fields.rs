//! Typed field values and the recorder that collects them for an event or a span.
use vstd::prelude::*;
use crate::json::FloatText;
use crate::json_logging::format::FieldFilter;

verus! {

/// The value of a recorded field.
#[derive(Debug, PartialEq, Eq)]
pub enum RecordedValue {
    F64(FloatText),
    I64(i64),
    U64(u64),
    Bool(bool),
    String(String),
}

/// What a `RecordedValue` stands for in contracts.
pub enum Value {
    F64(Seq<char>),
    I64(i64),
    U64(u64),
    Bool(bool),
    String(Seq<char>),
}

impl View for RecordedValue {
    type V = Value;

    open spec fn view(&self) -> Value {
        match self {
            RecordedValue::F64(v) => Value::F64(v@),
            RecordedValue::I64(v) => Value::I64(*v),
            RecordedValue::U64(v) => Value::U64(*v),
            RecordedValue::Bool(v) => Value::Bool(*v),
            RecordedValue::String(v) => Value::String(v@),
        }
    }
}

impl Clone for RecordedValue {
    fn clone(&self) -> (r: RecordedValue)
        ensures
            r@ == self@,
    {
        match self {
            RecordedValue::F64(v) => RecordedValue::F64(v.clone()),
            RecordedValue::I64(v) => RecordedValue::I64(*v),
            RecordedValue::U64(v) => RecordedValue::U64(*v),
            RecordedValue::Bool(v) => RecordedValue::Bool(*v),
            RecordedValue::String(v) => RecordedValue::String(v.clone()),
        }
    }
}

impl From<FloatText> for RecordedValue {
    fn from(v: FloatText) -> (r: RecordedValue) {
        RecordedValue::F64(v)
    }
}

impl vstd::std_specs::convert::FromSpecImpl<FloatText> for RecordedValue {
    open spec fn obeys_from_spec() -> bool {
        true
    }

    open spec fn from_spec(v: FloatText) -> RecordedValue {
        RecordedValue::F64(v)
    }
}

impl From<i64> for RecordedValue {
    fn from(v: i64) -> (r: RecordedValue) {
        RecordedValue::I64(v)
    }
}

impl vstd::std_specs::convert::FromSpecImpl<i64> for RecordedValue {
    open spec fn obeys_from_spec() -> bool {
        true
    }

    open spec fn from_spec(v: i64) -> RecordedValue {
        RecordedValue::I64(v)
    }
}

impl From<u64> for RecordedValue {
    fn from(v: u64) -> (r: RecordedValue) {
        RecordedValue::U64(v)
    }
}

impl vstd::std_specs::convert::FromSpecImpl<u64> for RecordedValue {
    open spec fn obeys_from_spec() -> bool {
        true
    }

    open spec fn from_spec(v: u64) -> RecordedValue {
        RecordedValue::U64(v)
    }
}

impl From<bool> for RecordedValue {
    fn from(v: bool) -> (r: RecordedValue) {
        RecordedValue::Bool(v)
    }
}

impl vstd::std_specs::convert::FromSpecImpl<bool> for RecordedValue {
    open spec fn obeys_from_spec() -> bool {
        true
    }

    open spec fn from_spec(v: bool) -> RecordedValue {
        RecordedValue::Bool(v)
    }
}

impl From<String> for RecordedValue {
    fn from(v: String) -> (r: RecordedValue) {
        RecordedValue::String(v)
    }
}

impl vstd::std_specs::convert::FromSpecImpl<String> for RecordedValue {
    open spec fn obeys_from_spec() -> bool {
        true
    }

    open spec fn from_spec(v: String) -> RecordedValue {
        RecordedValue::String(v)
    }
}

/// A named value.
#[derive(Debug, PartialEq, Eq)]
pub struct Field {
    pub name: String,
    pub value: RecordedValue,
}

/// What a `Field` stands for in contracts.
pub struct FieldView {
    pub name: Seq<char>,
    pub value: Value,
}

impl View for Field {
    type V = FieldView;

    open spec fn view(&self) -> FieldView {
        FieldView { name: self.name@, value: self.value@ }
    }
}

impl Clone for Field {
    fn clone(&self) -> (r: Field)
        ensures
            r@ == self@,
    {
        Field { name: self.name.clone(), value: self.value.clone() }
    }
}

/// The views of a list of fields, in the same order.
pub open spec fn field_views(fields: Seq<Field>) -> Seq<FieldView> {
    fields.map_values(|f: Field| f@)
}

/// The fields of `fields` that `format` does not veto, in the same order.
pub open spec fn accepted<F: FieldFilter>(format: F, fields: Seq<FieldView>) -> Seq<FieldView> {
    fields.filter(|f: FieldView| format.accepts(f.name, f.value))
}

/// The fields recorded for one event or one span, in the order of recording.
#[derive(Debug, PartialEq, Eq)]
pub struct RecordedFields {
    fields: Vec<Field>,
}

impl View for RecordedFields {
    type V = Seq<FieldView>;

    closed spec fn view(&self) -> Seq<FieldView> {
        field_views(self.fields@)
    }
}

impl Clone for RecordedFields {
    fn clone(&self) -> (r: RecordedFields)
        ensures
            r@ == self@,
    {
        let mut fields: Vec<Field> = Vec::new();
        let mut i: usize = 0;
        while i < self.fields.len()
            invariant
                i <= self.fields.len(),
                fields@.len() == i,
                forall|k: int| 0 <= k < i ==> (#[trigger] fields@[k])@ == self.fields@[k]@,
            decreases self.fields.len() - i,
        {
            let field = self.fields[i].clone();
            fields.push(field);
            i += 1;
        }
        assert(field_views(fields@) =~= field_views(self.fields@));
        RecordedFields { fields }
    }
}

impl Default for RecordedFields {
    fn default() -> (r: RecordedFields)
        ensures
            r@ == Seq::<FieldView>::empty(),
    {
        let r = RecordedFields { fields: Vec::new() };
        assert(r@ =~= Seq::<FieldView>::empty());
        r
    }
}

impl RecordedFields {
    /// The fields of `event` that `event_format` does not veto.
    pub fn from_event<F: FieldFilter>(event_format: &F, event: &Event) -> (r: RecordedFields)
        ensures
            r@ == accepted(*event_format, field_views(event.fields@)),
    {
        Self::record_all(RecordedFields::default(), event_format, &event.fields)
    }

    /// The fields of `attributes` that `event_format` does not veto.
    pub fn from_attributes<F: FieldFilter>(event_format: &F, attributes: &Attributes) -> (r:
        RecordedFields)
        ensures
            r@ == accepted(*event_format, field_views(attributes.fields@)),
    {
        Self::record_all(RecordedFields::default(), event_format, &attributes.fields)
    }

    /// Appends the fields of `record` that `event_format` does not veto.
    pub fn append_record<F: FieldFilter>(&mut self, event_format: &F, record: &Record)
        ensures
            final(self)@ == old(self)@ + accepted(*event_format, field_views(record.fields@)),
    {
        let mut taken = RecordedFields::default();
        core::mem::swap(self, &mut taken);
        *self = Self::record_all(taken, event_format, &record.fields);
    }

    fn record_all<F: FieldFilter>(recorded: RecordedFields, event_format: &F, fields: &Vec<Field>) -> (r:
        RecordedFields)
        ensures
            r@ == recorded@ + accepted(*event_format, field_views(fields@)),
    {
        let ghost before = recorded@;
        let ghost all = field_views(fields@);
        let mut visitor = FieldVisitor::new(event_format, recorded);
        let mut i: usize = 0;
        assert(accepted(*event_format, all.take(0)) =~= Seq::<FieldView>::empty());
        while i < fields.len()
            invariant
                i <= fields.len(),
                all == field_views(fields@),
                visitor.format() == *event_format,
                visitor.recorded() == before + accepted(*event_format, all.take(i as int)),
            decreases fields.len() - i,
        {
            visitor.record_field(fields[i].clone());
            proof {
                assert(all.take(i + 1).drop_last() =~= all.take(i as int));
                assert(all.take(i + 1).last() == fields[i as int]@);
                reveal(Seq::filter);
            }
            i += 1;
        }
        assert(all.take(i as int) =~= all);
        visitor.into_fields()
    }

    /// Appends a field.
    pub fn push(&mut self, field: Field)
        ensures
            final(self)@ == old(self)@.push(field@),
    {
        self.fields.push(field);
        assert(self@ =~= old(self)@.push(field@));
    }

    /// The number of recorded fields.
    pub fn len(&self) -> (r: usize)
        ensures
            r == self@.len(),
    {
        self.fields.len()
    }

    /// The field recorded at position `index`.
    pub fn get(&self, index: usize) -> (r: &Field)
        requires
            index < self@.len(),
        ensures
            r@ == self@[index as int],
    {
        &self.fields[index]
    }
}

/// Feeds fields into a recorder, leaving out those that the format vetoes.
pub struct FieldVisitor<'a, F> {
    event_format: &'a F,
    fields: RecordedFields,
}

impl<'a, F: FieldFilter> FieldVisitor<'a, F> {
    /// The fields recorded so far.
    pub closed spec fn recorded(&self) -> Seq<FieldView> {
        self.fields@
    }

    /// The format whose veto is asked.
    pub closed spec fn format(&self) -> F {
        *self.event_format
    }

    /// A visitor that adds to `fields`.
    pub fn new(event_format: &'a F, fields: RecordedFields) -> (r: Self)
        ensures
            r.recorded() == fields@,
            r.format() == *event_format,
    {
        Self { event_format, fields }
    }

    /// Records `field` unless the format vetoes it.
    pub fn record_field(&mut self, field: Field)
        ensures
            final(self).format() == old(self).format(),
            final(self).recorded() == if old(self).format().accepts(field@.name, field@.value) {
                old(self).recorded().push(field@)
            } else {
                old(self).recorded()
            },
    {
        if self.event_format.accept_field(field.name.as_str(), &field.value) {
            self.fields.push(field);
        }
    }

    /// Records a floating-point value, given in its JSON form.
    pub fn record_f64(&mut self, name: &str, value: FloatText)
        ensures
            final(self).format() == old(self).format(),
            final(self).recorded() == if old(self).format().accepts(name@, Value::F64(value@)) {
                old(self).recorded().push(FieldView { name: name@, value: Value::F64(value@) })
            } else {
                old(self).recorded()
            },
    {
        self.record_field(Field { name: name.to_owned(), value: RecordedValue::from(value) });
    }

    /// Records a signed number.
    pub fn record_i64(&mut self, name: &str, value: i64)
        ensures
            final(self).format() == old(self).format(),
            final(self).recorded() == if old(self).format().accepts(name@, Value::I64(value)) {
                old(self).recorded().push(FieldView { name: name@, value: Value::I64(value) })
            } else {
                old(self).recorded()
            },
    {
        self.record_field(Field { name: name.to_owned(), value: RecordedValue::from(value) });
    }

    /// Records an unsigned number.
    pub fn record_u64(&mut self, name: &str, value: u64)
        ensures
            final(self).format() == old(self).format(),
            final(self).recorded() == if old(self).format().accepts(name@, Value::U64(value)) {
                old(self).recorded().push(FieldView { name: name@, value: Value::U64(value) })
            } else {
                old(self).recorded()
            },
    {
        self.record_field(Field { name: name.to_owned(), value: RecordedValue::from(value) });
    }

    /// Records a truth value.
    pub fn record_bool(&mut self, name: &str, value: bool)
        ensures
            final(self).format() == old(self).format(),
            final(self).recorded() == if old(self).format().accepts(name@, Value::Bool(value)) {
                old(self).recorded().push(FieldView { name: name@, value: Value::Bool(value) })
            } else {
                old(self).recorded()
            },
    {
        self.record_field(Field { name: name.to_owned(), value: RecordedValue::from(value) });
    }

    /// Records a text; an error or a value shown for debugging is recorded as
    /// the text that it is shown as.
    pub fn record_str(&mut self, name: &str, value: &str)
        ensures
            final(self).format() == old(self).format(),
            final(self).recorded() == if old(self).format().accepts(name@, Value::String(value@)) {
                old(self).recorded().push(FieldView { name: name@, value: Value::String(value@) })
            } else {
                old(self).recorded()
            },
    {
        self.record_field(
            Field { name: name.to_owned(), value: RecordedValue::String(value.to_owned()) },
        );
    }

    /// Hands back the recorder.
    pub fn into_fields(self) -> (r: RecordedFields)
        ensures
            r@ == self.recorded(),
    {
        self.fields
    }
}

/// Where an event or a span was declared.
#[derive(Debug, PartialEq, Eq)]
pub struct Metadata {
    pub name: String,
    pub target: String,
    pub level: crate::json_logging::Level,
    pub file: Option<String>,
    pub line: Option<u32>,
}

/// What a `Metadata` stands for in contracts.
pub struct MetadataView {
    pub name: Seq<char>,
    pub target: Seq<char>,
    pub level: crate::json_logging::Level,
    pub file: Option<Seq<char>>,
    pub line: Option<u32>,
}

impl View for Metadata {
    type V = MetadataView;

    open spec fn view(&self) -> MetadataView {
        MetadataView {
            name: self.name@,
            target: self.target@,
            level: self.level,
            file: match self.file {
                Some(f) => Some(f@),
                None => None,
            },
            line: self.line,
        }
    }
}

/// A log event: where it was raised and the fields it carries.
#[derive(Debug, PartialEq, Eq)]
pub struct Event {
    pub metadata: Metadata,
    pub fields: Vec<Field>,
}

impl Clone for Metadata {
    fn clone(&self) -> (r: Metadata)
        ensures
            r@ == self@,
    {
        Metadata {
            name: self.name.clone(),
            target: self.target.clone(),
            level: self.level,
            file: match &self.file {
                Some(file) => Some(file.clone()),
                None => None,
            },
            line: self.line,
        }
    }
}

/// What an `Event` stands for in contracts.
pub struct EventView {
    pub metadata: MetadataView,
    pub fields: Seq<FieldView>,
}

impl View for Event {
    type V = EventView;

    open spec fn view(&self) -> EventView {
        EventView { metadata: self.metadata@, fields: field_views(self.fields@) }
    }
}

/// The fields given to a span when it is created.
#[derive(Debug, PartialEq, Eq)]
pub struct Attributes {
    pub metadata: Metadata,
    pub fields: Vec<Field>,
}

/// Fields added to a span after it was created.
#[derive(Debug, PartialEq, Eq)]
pub struct Record {
    pub fields: Vec<Field>,
}

} // verus!
