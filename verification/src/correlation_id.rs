//! The correlation identifier of a request: taken from the inbound headers or
//! made anew, and written onto the response.
use vstd::prelude::*;
use vstd::string::*;
use http::header::{HeaderMap, HeaderValue};
use crate::json_logging::Level;
use crate::json_logging::fields::{Attributes, Field, Metadata, MetadataView, field_views};
use crate::json_logging::format::{new_text_field, text_field};
use crate::headers::{
    all_value_chars, all_visible_ascii, ascii_text, header_entries, header_value_bytes,
    insert_header, is_header_name, is_value_char, is_visible_ascii, remove_header, value_from_str,
    value_to_str,
};

verus! {

/// The name of the header that carries the identifier.
pub open spec fn header_name() -> Seq<char> {
    "x-correlation-id"@
}

/// A digit of Crockford's base 32: a decimal digit or a capital letter other
/// than I, L, O and U.
pub open spec fn is_crockford_digit(c: char) -> bool {
    ('0' <= c && c <= '9') || ('A' <= c && c <= 'Z' && c != 'I' && c != 'L' && c != 'O' && c != 'U')
}

/// Whether `text` has the shape of a ULID: 26 digits of Crockford's base 32.
pub open spec fn is_ulid(text: Seq<char>) -> bool {
    &&& text.len() == 26
    &&& forall|i: int| 0 <= i < text.len() ==> is_crockford_digit(#[trigger] text[i])
}

/// `rusty_ulid::generate_ulid_string`: a new ULID from the clock and a random
/// number, as text. Of the text only the shape is claimed, and not proved: 26
/// digits of Crockford's base 32. (That crate gives up once the clock is past
/// the year 10889, which no caller can rule out.)
#[verifier::external_body]
fn new_ulid() -> (r: String)
    ensures
        is_ulid(r@),
{
    rusty_ulid::generate_ulid_string()
}

/// Why an identifier and a header value could not be turned into one another.
#[derive(Clone, Copy, Debug, PartialEq, Eq, Structural)]
pub enum HeaderError {
    /// The bytes or characters at hand cannot stand in the other form.
    Invalid,
    /// The header map took no further entry.
    Full,
}

/// The correlation identifier of a request.
#[derive(Debug, PartialEq, Eq)]
pub struct CorrelationId(pub String);

impl View for CorrelationId {
    type V = Seq<char>;

    open spec fn view(&self) -> Seq<char> {
        self.0@
    }
}

impl Clone for CorrelationId {
    fn clone(&self) -> (r: CorrelationId)
        ensures
            r@ == self@,
    {
        CorrelationId(self.0.clone())
    }
}

impl CorrelationId {
    /// The name of the header that carries the identifier.
    pub fn name() -> (r: &'static str)
        ensures
            r@ == header_name(),
            is_header_name(r@),
    {
        proof {
            reveal_strlit("x-correlation-id");
        }
        "x-correlation-id"
    }

    /// A new identifier.
    pub fn generate() -> (r: CorrelationId)
        ensures
            is_ulid(r@),
    {
        CorrelationId(new_ulid())
    }

    /// The identifier that a header value spells. A value with a byte that is
    /// no visible ASCII character, space or tab spells none.
    pub fn from_header_value(value: &HeaderValue) -> (r: Result<CorrelationId, HeaderError>)
        ensures
            r is Ok <==> all_visible_ascii(header_value_bytes(*value)),
            r is Ok ==> r->Ok_0@ == ascii_text(header_value_bytes(*value)),
            r is Err ==> r->Err_0 == HeaderError::Invalid,
    {
        match value_to_str(value) {
            Ok(text) => Ok(CorrelationId(text)),
            Err(_) => Err(HeaderError::Invalid),
        }
    }

    /// The header value that spells the identifier. An identifier with a
    /// control character other than the tab has none.
    pub fn header_value(&self) -> (r: Result<HeaderValue, HeaderError>)
        ensures
            r is Ok <==> all_value_chars(self@),
            r is Ok ==> header_value_bytes(r->Ok_0) == vstd::utf8::encode_utf8(self@),
            r is Err ==> r->Err_0 == HeaderError::Invalid,
    {
        match value_from_str(self.0.as_str()) {
            Ok(value) => Ok(value),
            Err(_) => Err(HeaderError::Invalid),
        }
    }

    /// The span that publishes the identifier to all that is logged for the
    /// request: it is named after the identifier's field and holds the
    /// identifier under that name.
    pub fn span_attributes(&self) -> (r: Attributes)
        ensures
            r.metadata@ == published_metadata(),
            field_views(r.fields@) == seq![text_field("correlation_id"@, self@)],
    {
        let mut fields: Vec<Field> = Vec::new();
        fields.push(new_text_field("correlation_id", self.0.as_str()));
        assert(field_views(fields@) =~= seq![text_field("correlation_id"@, self@)]);
        Attributes {
            metadata: Metadata {
                name: "correlation_id".to_owned(),
                target: "request_middleware::correlation_id".to_owned(),
                level: Level::Info,
                file: None,
                line: None,
            },
            fields,
        }
    }

    /// Writes the identifier onto the headers of a response, in the place of
    /// any value that the handler has set under the same name. An identifier
    /// that has no header value is not written, and neither is one that the
    /// header map has no room for; the headers are then left as they were.
    pub fn stamp(&self, headers: &mut HeaderMap<HeaderValue>) -> (r: Result<(), HeaderError>)
        ensures
            r is Ok ==> header_entries(*final(headers)) == stamped(header_entries(*old(headers)), self@),
            r is Err ==> header_entries(*final(headers)) == header_entries(*old(headers)),
            !all_value_chars(self@) <==> r == Err::<(), HeaderError>(HeaderError::Invalid),
            r is Err && all_value_chars(self@) ==> r->Err_0 == HeaderError::Full,
    {
        match self.header_value() {
            Ok(value) => stamp_outcome(insert_header(headers, CorrelationId::name(), value)),
            Err(error) => Err(error),
        }
    }

    /// The identifier as text.
    pub fn to_text(&self) -> (r: String)
        ensures
            r@ == self@,
    {
        self.0.clone()
    }
}

/// Where the span that publishes the identifier is declared.
pub open spec fn published_metadata() -> MetadataView {
    MetadataView {
        name: "correlation_id"@,
        target: "request_middleware::correlation_id"@,
        level: Level::Info,
        file: None,
        line: None,
    }
}

/// The identifier that a request with the first inbound value `inbound` gets
/// when `fresh` is the identifier made for it in case of need: the inbound
/// value if it can be read as text, and `fresh` otherwise.
pub open spec fn resolved(inbound: Option<Seq<u8>>, fresh: Seq<char>) -> Seq<char> {
    match inbound {
        Some(bytes) => if all_visible_ascii(bytes) {
            ascii_text(bytes)
        } else {
            fresh
        },
        None => fresh,
    }
}

/// The first value under the identifier's name, if there is one.
pub open spec fn inbound_value(entries: Map<Seq<char>, Seq<Seq<u8>>>) -> Option<Seq<u8>> {
    if entries.contains_key(header_name()) {
        Some(entries[header_name()][0])
    } else {
        None
    }
}

/// The entries of a response's headers once the identifier `token` is written
/// onto them: it stands alone under its name, whatever stood there.
pub open spec fn stamped(entries: Map<Seq<char>, Seq<Seq<u8>>>, token: Seq<char>) -> Map<
    Seq<char>,
    Seq<Seq<u8>>,
> {
    entries.insert(header_name(), seq![vstd::utf8::encode_utf8(token)])
}

/// Wraps a service so that each request has a correlation identifier.
#[derive(Clone, Copy, Debug)]
pub struct CorrelationIdLayer;

impl CorrelationIdLayer {
    /// Wraps `inner`.
    pub fn layer<S>(&self, inner: S) -> (r: CorrelationIdService<S>)
        ensures
            r.inner == inner,
    {
        CorrelationIdService::new(inner)
    }
}

/// A service whose requests carry a correlation identifier.
#[derive(Debug)]
pub struct CorrelationIdService<S> {
    pub inner: S,
}

impl<S> CorrelationIdService<S> {
    /// Wraps `inner`.
    pub fn new(inner: S) -> (r: Self)
        ensures
            r.inner == inner,
    {
        Self { inner }
    }

    /// The identifier of a request with the headers `headers`: the one it
    /// brought, if its header can be read, and a new one otherwise. The header
    /// is taken out of the request.
    pub fn resolve(&self, headers: &mut HeaderMap<HeaderValue>) -> (r: CorrelationId)
        ensures
            header_entries(*final(headers)) == header_entries(*old(headers)).remove(header_name()),
            exists|fresh: Seq<char>|
                is_ulid(fresh) && r@ == #[trigger] resolved(
                    inbound_value(header_entries(*old(headers))),
                    fresh,
                ),
    {
        let inbound = remove_header(headers, CorrelationId::name());
        match adopt(inbound) {
            Some(id) => {
                proof {
                    let any = Seq::new(26, |i: int| '0');
                    assert(is_ulid(any));
                    assert(id@ == resolved(inbound_value(header_entries(*old(headers))), any));
                }
                id
            },
            None => {
                let id = CorrelationId::generate();
                assert(id@ == resolved(inbound_value(header_entries(*old(headers))), id@));
                id
            },
        }
    }
}

/// The identifier that a request brought under its header, if it brought a
/// value there and the value can be read as text.
pub fn adopt(inbound: Option<HeaderValue>) -> (r: Option<CorrelationId>)
    ensures
        r is Some <==> inbound is Some && all_visible_ascii(header_value_bytes(inbound->0)),
        r is Some ==> r->0@ == ascii_text(header_value_bytes(inbound->0)),
{
    match inbound {
        Some(value) => match CorrelationId::from_header_value(&value) {
            Ok(id) => Some(id),
            Err(_) => None,
        },
        None => None,
    }
}

/// What writing the identifier comes to, given whether the header map took it.
pub fn stamp_outcome(inserted: bool) -> (r: Result<(), HeaderError>)
    ensures
        r == if inserted {
            Ok::<(), HeaderError>(())
        } else {
            Err::<(), HeaderError>(HeaderError::Full)
        },
{
    if inserted {
        Ok(())
    } else {
        Err(HeaderError::Full)
    }
}

/// A response carries exactly the identifier that its request brought: the
/// identifier read from a readable inbound value is written back as the same
/// bytes.
pub proof fn lemma_inbound_identifier_returns(
    request: Map<Seq<char>, Seq<Seq<u8>>>,
    response: Map<Seq<char>, Seq<Seq<u8>>>,
    fresh: Seq<char>,
)
    requires
        inbound_value(request) is Some,
        all_visible_ascii(inbound_value(request)->0),
    ensures
        all_value_chars(resolved(inbound_value(request), fresh)),
        stamped(response, resolved(inbound_value(request), fresh))[header_name()] == seq![
            inbound_value(request)->0,
        ],
{
    let bytes = inbound_value(request)->0;
    let token = ascii_text(bytes);
    assert forall|i: int| 0 <= i < token.len() implies '\0' <= #[trigger] token[i] <= '\u{7f}' by {
        assert(is_visible_ascii(bytes[i]));
    }
    assert forall|i: int| 0 <= i < token.len() implies is_value_char(#[trigger] token[i]) by {
        assert(is_visible_ascii(bytes[i]));
    }
    vstd::utf8::is_ascii_chars_encode_utf8(token);
    assert(vstd::utf8::encode_utf8(token) =~= bytes) by {
        assert forall|i: int| 0 <= i < bytes.len() implies vstd::utf8::encode_utf8(token)[i]
            == bytes[i] by {
            assert(is_visible_ascii(bytes[i]));
            assert(token[i] == bytes[i] as char);
        }
    }
}

/// A request that brings no identifier, or one that cannot be read, gets a new
/// one, which is not empty and can be written onto the response: the response
/// then carries it, 26 bytes long.
pub proof fn lemma_fresh_identifier_returns(
    request: Map<Seq<char>, Seq<Seq<u8>>>,
    response: Map<Seq<char>, Seq<Seq<u8>>>,
    fresh: Seq<char>,
)
    requires
        is_ulid(fresh),
        inbound_value(request) is None || !all_visible_ascii(inbound_value(request)->0),
    ensures
        resolved(inbound_value(request), fresh) == fresh,
        fresh.len() > 0,
        all_value_chars(fresh),
        stamped(response, resolved(inbound_value(request), fresh))[header_name()] == seq![
            vstd::utf8::encode_utf8(fresh),
        ],
        vstd::utf8::encode_utf8(fresh).len() == 26,
{
    assert forall|i: int| 0 <= i < fresh.len() implies '\0' <= #[trigger] fresh[i] <= '\u{7f}' by {
        assert(is_crockford_digit(fresh[i]));
    }
    assert forall|i: int| 0 <= i < fresh.len() implies is_value_char(#[trigger] fresh[i]) by {
        assert(is_crockford_digit(fresh[i]));
    }
    vstd::utf8::is_ascii_chars_encode_utf8(fresh);
}

} // verus!
