//! HTTP header maps and header values of the `http` crate, as the middleware
//! uses them. The contracts in this file are taken from that crate's source
//! and are not proved.
use vstd::prelude::*;
use http::header::{HeaderMap, HeaderName, HeaderValue, InvalidHeaderValue, ToStrError};

verus! {

/// `http::HeaderMap`; what it holds is seen through `header_entries` alone.
#[verifier::external_type_specification]
#[verifier::external_body]
#[verifier::reject_recursive_types(T)]
pub struct ExHeaderMap<T>(HeaderMap<T>);

/// `http::HeaderValue`; its bytes are seen through `header_value_bytes` alone.
#[verifier::external_type_specification]
#[verifier::external_body]
pub struct ExHeaderValue(HeaderValue);

/// `http::header::ToStrError`: a header value is no text.
#[verifier::external_type_specification]
#[verifier::external_body]
pub struct ExToStrError(ToStrError);

/// `http::header::InvalidHeaderValue`: a text is no header value.
#[verifier::external_type_specification]
#[verifier::external_body]
pub struct ExInvalidHeaderValue(InvalidHeaderValue);

/// What a header map holds: for each name, in lower case, the values under
/// that name in their order.
pub uninterp spec fn header_entries(headers: HeaderMap<HeaderValue>) -> Map<Seq<char>, Seq<Seq<u8>>>;

/// The bytes of a header value.
pub uninterp spec fn header_value_bytes(value: HeaderValue) -> Seq<u8>;

/// A byte that may stand in a header value that is read as text: a visible
/// ASCII character, a space or a tab.
pub open spec fn is_visible_ascii(b: u8) -> bool {
    (32 <= b && b < 127) || b == 9
}

/// Whether each byte of `bytes` is a visible ASCII character, a space or a tab.
pub open spec fn all_visible_ascii(bytes: Seq<u8>) -> bool {
    forall|i: int| 0 <= i < bytes.len() ==> is_visible_ascii(#[trigger] bytes[i])
}

/// A character that may stand in a header value: any but the control
/// characters, of which only the tab is let through.
pub open spec fn is_value_char(c: char) -> bool {
    c == '\t' || (' ' <= c && c != '\u{7f}')
}

/// Whether each character of `text` may stand in a header value.
pub open spec fn all_value_chars(text: Seq<char>) -> bool {
    forall|i: int| 0 <= i < text.len() ==> is_value_char(#[trigger] text[i])
}

/// The ASCII text that `bytes` spell.
pub open spec fn ascii_text(bytes: Seq<u8>) -> Seq<char> {
    bytes.map_values(|b: u8| b as char)
}

/// A header name of lower-case letters, digits and hyphens, of at most 64
/// characters. The `http` crate lets more names through; the middleware needs
/// no others.
pub open spec fn is_header_name(name: Seq<char>) -> bool {
    &&& 1 <= name.len() <= 64
    &&& forall|i: int|
        0 <= i < name.len() ==> {
            let c = #[trigger] name[i];
            ('a' <= c && c <= 'z') || ('0' <= c && c <= '9') || c == '-'
        }
}

/// `HeaderValue::to_str`: the value as text. It succeeds exactly if every byte
/// is a visible ASCII character, a space or a tab, and the text then spells
/// the bytes.
#[verifier::external_body]
pub(crate) fn value_to_str(value: &HeaderValue) -> (r: Result<String, ToStrError>)
    ensures
        r is Ok <==> all_visible_ascii(header_value_bytes(*value)),
        r is Ok ==> r->Ok_0@ == ascii_text(header_value_bytes(*value)),
{
    value.to_str().map(|text| text.to_string())
}

/// `HeaderValue::from_str`: a header value with the bytes of `text` in UTF-8.
/// It succeeds exactly if `text` holds no control character but tabs.
#[verifier::external_body]
pub(crate) fn value_from_str(text: &str) -> (r: Result<HeaderValue, InvalidHeaderValue>)
    ensures
        r is Ok <==> all_value_chars(text@),
        r is Ok ==> header_value_bytes(r->Ok_0) == vstd::utf8::encode_utf8(text@),
{
    HeaderValue::from_str(text)
}

/// `HeaderMap::remove`: takes all values under `name` out of the map and
/// returns the first of them, if there is one.
#[verifier::external_body]
pub(crate) fn remove_header(headers: &mut HeaderMap<HeaderValue>, name: &str) -> (r: Option<HeaderValue>)
    requires
        is_header_name(name@),
    ensures
        header_entries(*final(headers)) == header_entries(*old(headers)).remove(name@),
        r is Some <==> header_entries(*old(headers)).contains_key(name@),
        r is Some ==> header_value_bytes(r->0) == header_entries(*old(headers))[name@][0],
{
    headers.remove(name)
}

/// `HeaderMap::try_insert` under the name that `HeaderName::from_bytes` makes
/// of `name`: puts `value` in the place of all values under that name. The map
/// may refuse for want of room; it is then left as it was. Returns whether the
/// value was put.
#[verifier::external_body]
pub(crate) fn insert_header(headers: &mut HeaderMap<HeaderValue>, name: &str, value: HeaderValue) -> (r:
    bool)
    requires
        is_header_name(name@),
    ensures
        r ==> header_entries(*final(headers)) == header_entries(*old(headers)).insert(
            name@,
            seq![header_value_bytes(value)],
        ),
        !r ==> header_entries(*final(headers)) == header_entries(*old(headers)),
{
    match HeaderName::from_bytes(name.as_bytes()) {
        Ok(key) => headers.try_insert(key, value).is_ok(),
        Err(_) => false,
    }
}

} // verus!
