//! JSON text: number syntax, and the rendering of scalars and objects.
use vstd::prelude::*;
use vstd::string::*;
use crate::json_logging::fields::{Field, FieldView, RecordedValue, Value, field_views};

verus! {

/// Whether `c` is a decimal digit.
pub open spec fn is_digit(c: char) -> bool {
    '0' <= c && c <= '9'
}

/// The first position at or after `i` that holds no decimal digit.
pub open spec fn skip_digits(s: Seq<char>, i: int) -> int
    decreases s.len() - i,
{
    if 0 <= i < s.len() && is_digit(s[i]) {
        skip_digits(s, i + 1)
    } else {
        i
    }
}

/// Whether `s` is a number in JSON syntax: an optional minus sign, an integer
/// part without a leading zero, an optional fraction, an optional exponent.
pub open spec fn is_json_number(s: Seq<char>) -> bool {
    let a: int = if s.len() > 0 && s[0] == '-' { 1 } else { 0 };
    let b = skip_digits(s, a);
    let has_fraction = b < s.len() && s[b] == '.';
    let c = if has_fraction { skip_digits(s, b + 1) } else { b };
    let has_exponent = c < s.len() && (s[c] == 'e' || s[c] == 'E');
    let signed = has_exponent && c + 1 < s.len() && (s[c + 1] == '+' || s[c + 1] == '-');
    let d = if signed { c + 2 } else { c + 1 };
    let e = if has_exponent { skip_digits(s, d) } else { c };
    &&& b > a
    &&& s[a] == '0' ==> b == a + 1
    &&& has_fraction ==> c > b + 1
    &&& has_exponent ==> e > d
    &&& e == s.len()
}

/// Whether `s` can stand for a floating-point value in a JSON document: a JSON
/// number, or `null` for a value that is not finite.
pub open spec fn is_float_text(s: Seq<char>) -> bool {
    s == seq!['n', 'u', 'l', 'l'] || (vstd::utf8::is_ascii_chars(s) && is_json_number(s))
}

const ZERO: u8 = 48;

const NINE: u8 = 57;

const MINUS: u8 = 45;

const PLUS: u8 = 43;

const POINT: u8 = 46;

const LOWER_E: u8 = 101;

const UPPER_E: u8 = 69;

const LOWER_N: u8 = 110;

const LOWER_U: u8 = 117;

const LOWER_L: u8 = 108;

/// `bytes` holds the characters of the ASCII text `s`, one byte each.
spec fn ascii_bytes(s: Seq<char>, bytes: Seq<u8>) -> bool {
    &&& bytes.len() == s.len()
    &&& forall|i: int| 0 <= i < s.len() ==> '\0' <= #[trigger] s[i] <= '\u{7f}' && bytes[i] == s[i] as u8
}

fn scan_digits(bytes: &[u8], start: usize, Ghost(s): Ghost<Seq<char>>) -> (end: usize)
    requires
        ascii_bytes(s, bytes@),
        start <= bytes.len(),
    ensures
        end as int == skip_digits(s, start as int),
        start <= end <= bytes.len(),
{
    let mut i: usize = start;
    while i < bytes.len() && ZERO <= bytes[i] && bytes[i] <= NINE
        invariant
            ascii_bytes(s, bytes@),
            start <= i <= bytes.len(),
            skip_digits(s, start as int) == skip_digits(s, i as int),
        decreases bytes.len() - i,
    {
        assert(is_digit(s[i as int]));
        i += 1;
    }
    assert(i < bytes.len() ==> !is_digit(s[i as int]));
    i
}

fn scan_number(bytes: &[u8], Ghost(s): Ghost<Seq<char>>) -> (ok: bool)
    requires
        ascii_bytes(s, bytes@),
    ensures
        ok == is_json_number(s),
{
    let n: usize = bytes.len();
    let a: usize = if n > 0 && bytes[0] == MINUS { 1 } else { 0 };
    assert(n > 0 ==> (bytes[0] == MINUS <==> s[0] == '-'));
    let b: usize = scan_digits(bytes, a, Ghost(s));
    if b == a {
        return false;
    }
    assert(bytes[a as int] == ZERO <==> s[a as int] == '0');
    if bytes[a] == ZERO && b != a + 1 {
        return false;
    }
    assert(b < n ==> (bytes[b as int] == POINT <==> s[b as int] == '.'));
    let has_fraction = b < n && bytes[b] == POINT;
    let c: usize = if has_fraction { scan_digits(bytes, b + 1, Ghost(s)) } else { b };
    if has_fraction && c == b + 1 {
        return false;
    }
    assert(c < n ==> (bytes[c as int] == LOWER_E <==> s[c as int] == 'e'));
    assert(c < n ==> (bytes[c as int] == UPPER_E <==> s[c as int] == 'E'));
    let has_exponent = c < n && (bytes[c] == LOWER_E || bytes[c] == UPPER_E);
    if !has_exponent {
        return c == n;
    }
    assert(c + 1 < n ==> (bytes[c + 1] == PLUS <==> s[c + 1] == '+'));
    assert(c + 1 < n ==> (bytes[c + 1] == MINUS <==> s[c + 1] == '-'));
    let signed = c + 1 < n && (bytes[c + 1] == PLUS || bytes[c + 1] == MINUS);
    let d: usize = if signed { c + 2 } else { c + 1 };
    let e: usize = scan_digits(bytes, d, Ghost(s));
    e > d && e == n
}

/// The character of the decimal digit `d`.
pub open spec fn digit(d: nat) -> char {
    if d == 0 {
        '0'
    } else if d == 1 {
        '1'
    } else if d == 2 {
        '2'
    } else if d == 3 {
        '3'
    } else if d == 4 {
        '4'
    } else if d == 5 {
        '5'
    } else if d == 6 {
        '6'
    } else if d == 7 {
        '7'
    } else if d == 8 {
        '8'
    } else {
        '9'
    }
}

/// The decimal digits of `n`, without leading zeros.
pub open spec fn decimal(n: nat) -> Seq<char>
    decreases n,
{
    if n < 10 {
        seq![digit(n)]
    } else {
        decimal(n / 10).push(digit(n % 10))
    }
}

/// The decimal form of `i`, with a minus sign if it is negative.
pub open spec fn signed_decimal(i: int) -> Seq<char> {
    if i < 0 {
        seq!['-'] + decimal((-i) as nat)
    } else {
        decimal(i as nat)
    }
}

fn digit_str(d: u8) -> (r: &'static str)
    requires
        d < 10,
    ensures
        r@ == seq![digit(d as nat)],
{
    proof {
        reveal_strlit("0");
        reveal_strlit("1");
        reveal_strlit("2");
        reveal_strlit("3");
        reveal_strlit("4");
        reveal_strlit("5");
        reveal_strlit("6");
        reveal_strlit("7");
        reveal_strlit("8");
        reveal_strlit("9");
    }
    let r = if d == 0 {
        "0"
    } else if d == 1 {
        "1"
    } else if d == 2 {
        "2"
    } else if d == 3 {
        "3"
    } else if d == 4 {
        "4"
    } else if d == 5 {
        "5"
    } else if d == 6 {
        "6"
    } else if d == 7 {
        "7"
    } else if d == 8 {
        "8"
    } else {
        "9"
    };
    assert(r@ =~= seq![digit(d as nat)]);
    r
}

/// Appends the decimal digits of `n` to `out`.
pub fn append_decimal(out: &mut String, n: u64)
    ensures
        final(out)@ == old(out)@ + decimal(n as nat),
    decreases n,
{
    if n >= 10 {
        append_decimal(out, n / 10);
    }
    out.append(digit_str((n % 10) as u8));
    assert(out@ =~= old(out)@ + decimal(n as nat));
}

/// Appends the decimal form of `i` to `out`.
pub fn append_signed_decimal(out: &mut String, i: i64)
    ensures
        final(out)@ == old(out)@ + signed_decimal(i as int),
{
    if i < 0 {
        proof {
            reveal_strlit("-");
        }
        out.append("-");
        let magnitude: u64 = if i == i64::MIN {
            9223372036854775808u64
        } else {
            (-i) as u64
        };
        append_decimal(out, magnitude);
        assert(out@ =~= old(out)@ + signed_decimal(i as int));
    } else {
        append_decimal(out, i as u64);
    }
}

/// The JSON string literal for `text`, quotes included, as
/// `serde_json::to_string` writes it for a string.
pub uninterp spec fn json_string(text: Seq<char>) -> Seq<char>;

/// The JSON string literal for `text`, by `serde_json::to_string`. For a
/// string that call writes into memory and has no way to fail. The contract
/// is not proved; it gives the result its name.
#[verifier::external_body]
fn quote(text: &str) -> (r: String)
    ensures
        r@ == json_string(text@),
{
    serde_json::to_string(text).unwrap_or_default()
}

/// The parts of `parts`, with `separator` between each two.
pub open spec fn joined(parts: Seq<Seq<char>>, separator: char) -> Seq<char>
    decreases parts.len(),
{
    if parts.len() == 0 {
        Seq::empty()
    } else if parts.len() == 1 {
        parts[0]
    } else {
        joined(parts.drop_last(), separator) + seq![separator] + parts.last()
    }
}

/// The JSON text of a value.
pub open spec fn value_text(value: Value) -> Seq<char> {
    match value {
        Value::F64(text) => text,
        Value::I64(i) => signed_decimal(i as int),
        Value::U64(u) => decimal(u as nat),
        Value::Bool(b) => if b {
            "true"@
        } else {
            "false"@
        },
        Value::String(text) => json_string(text),
    }
}

/// The JSON text of a member of an object: the name, a colon, the value.
pub open spec fn member_text(field: FieldView) -> Seq<char> {
    json_string(field.name) + seq![':'] + value_text(field.value)
}

/// The JSON texts of the members `fields`.
pub open spec fn member_texts(fields: Seq<FieldView>) -> Seq<Seq<char>> {
    fields.map_values(|f: FieldView| member_text(f))
}

/// The JSON text of the object with the members `fields`, in that order.
pub open spec fn object_text(fields: Seq<FieldView>) -> Seq<char> {
    seq!['{'] + joined(member_texts(fields), ',') + seq!['}']
}

/// The JSON text of the array with the elements `items`.
pub open spec fn array_text(items: Seq<Seq<char>>) -> Seq<char> {
    seq!['['] + joined(items, ',') + seq![']']
}

/// Joining one more part.
pub proof fn lemma_joined_push(parts: Seq<Seq<char>>, part: Seq<char>, separator: char)
    ensures
        joined(parts.push(part), separator) == if parts.len() == 0 {
            part
        } else {
            joined(parts, separator) + seq![separator] + part
        },
{
    assert(parts.push(part).drop_last() =~= parts);
}

/// Appends a comma to `out` unless the next part is the first.
pub(crate) fn append_separator(out: &mut String, first: bool)
    ensures
        final(out)@ == old(out)@ + (if first { Seq::<char>::empty() } else { seq![','] }),
{
    proof {
        reveal_strlit(",");
    }
    if !first {
        out.append(",");
    }
    assert(out@ =~= old(out)@ + (if first { Seq::<char>::empty() } else { seq![','] }));
}

/// Appends the JSON string literal for `text` to `out`.
pub(crate) fn append_string(out: &mut String, text: &str)
    ensures
        final(out)@ == old(out)@ + json_string(text@),
{
    let literal = quote(text);
    out.append(literal.as_str());
}

/// Appends the JSON text of `value` to `out`.
pub(crate) fn append_value(out: &mut String, value: &RecordedValue)
    ensures
        final(out)@ == old(out)@ + value_text(value@),
{
    match value {
        RecordedValue::F64(v) => out.append(v.as_str()),
        RecordedValue::I64(v) => append_signed_decimal(out, *v),
        RecordedValue::U64(v) => append_decimal(out, *v),
        RecordedValue::Bool(v) => if *v {
            out.append("true")
        } else {
            out.append("false")
        },
        RecordedValue::String(v) => append_string(out, v.as_str()),
    }
}

/// Appends the JSON text of the member `field` to `out`.
pub(crate) fn append_member(out: &mut String, field: &Field)
    ensures
        final(out)@ == old(out)@ + member_text(field@),
{
    proof {
        reveal_strlit(":");
    }
    append_string(out, field.name.as_str());
    out.append(":");
    append_value(out, &field.value);
    assert(out@ =~= old(out)@ + member_text(field@));
}

/// Appends the members `fields` to `out`, which holds `start` and then the
/// parts `parts`, joined by commas.
pub(crate) fn append_members(
    out: &mut String,
    fields: &Vec<Field>,
    Ghost(start): Ghost<Seq<char>>,
    Ghost(parts): Ghost<Seq<Seq<char>>>,
    first: bool,
) -> (now_first: bool)
    requires
        old(out)@ == start + joined(parts, ','),
        first == (parts.len() == 0),
    ensures
        final(out)@ == start + joined(parts + member_texts(field_views(fields@)), ','),
        now_first == ((parts + member_texts(field_views(fields@))).len() == 0),
{
    let ghost texts = member_texts(field_views(fields@));
    let mut first = first;
    let mut i: usize = 0;
    assert(parts + texts.take(0) =~= parts);
    while i < fields.len()
        invariant
            i <= fields@.len(),
            texts == member_texts(field_views(fields@)),
            out@ == start + joined(parts + texts.take(i as int), ','),
            first == ((parts + texts.take(i as int)).len() == 0),
        decreases fields.len() - i,
    {
        let ghost done = parts + texts.take(i as int);
        append_separator(out, first);
        append_member(out, &fields[i]);
        proof {
            lemma_joined_push(done, texts[i as int], ',');
            assert(done.push(texts[i as int]) =~= parts + texts.take(i + 1));
            assert(out@ =~= start + joined(done.push(texts[i as int]), ','));
        }
        first = false;
        i += 1;
    }
    assert(texts.take(i as int) =~= texts);
    first
}

/// Appends to `out` the JSON text of the object with the members `fields`.
pub(crate) fn append_object(out: &mut String, fields: &Vec<Field>)
    ensures
        final(out)@ == old(out)@ + object_text(field_views(fields@)),
{
    proof {
        reveal_strlit("{");
        reveal_strlit("}");
    }
    out.append("{");
    let ghost start = old(out)@ + seq!['{'];
    let ghost none = Seq::<Seq<char>>::empty();
    assert(out@ =~= start + joined(none, ','));
    append_members(out, fields, Ghost(start), Ghost(none), true);
    assert(none + member_texts(field_views(fields@)) =~= member_texts(field_views(fields@)));
    out.append("}");
    assert(out@ =~= old(out)@ + object_text(field_views(fields@)));
}

/// The JSON text of the object with the members `fields`, in that order.
pub fn render_object(fields: &Vec<Field>) -> (r: String)
    ensures
        r@ == object_text(field_views(fields@)),
{
    let mut out = String::new();
    append_object(&mut out, fields);
    assert(out@ =~= object_text(field_views(fields@)));
    out
}

/// The bytes of `text` in UTF-8.
pub fn utf8_bytes(text: &str) -> (r: Vec<u8>)
    ensures
        r@ == vstd::utf8::encode_utf8(text@),
{
    let bytes = text.as_bytes();
    let mut out: Vec<u8> = Vec::new();
    let mut i: usize = 0;
    while i < bytes.len()
        invariant
            i <= bytes@.len(),
            out@ == bytes@.take(i as int),
        decreases bytes.len() - i,
    {
        out.push(bytes[i]);
        i += 1;
        assert(out@ =~= bytes@.take(i as int));
    }
    assert(bytes@.take(i as int) =~= bytes@);
    out
}

/// The JSON form of a floating-point value, as text.
///
/// Verified code holds no floating-point numbers, so a value of that kind
/// travels through the library in the form in which it is written out.
#[derive(Debug, PartialEq, Eq)]
pub struct FloatText {
    text: String,
}

impl View for FloatText {
    type V = Seq<char>;

    closed spec fn view(&self) -> Seq<char> {
        self.text@
    }
}

impl FloatText {
    #[verifier::type_invariant]
    spec fn well_formed(self) -> bool {
        is_float_text(self.text@)
    }

    /// Accepts `text` if it is a JSON number or `null`.
    pub fn parse(text: &str) -> (r: Option<FloatText>)
        ensures
            r is Some <==> is_float_text(text@),
            r is Some ==> r->0@ == text@,
    {
        if !text.is_ascii() {
            assert(vstd::utf8::is_ascii_chars(seq!['n', 'u', 'l', 'l']));
            return None;
        }
        let bytes = text.as_bytes();
        proof {
            is_ascii_spec_bytes(text);
            assert(ascii_bytes(text@, bytes@));
        }
        let is_null = bytes.len() == 4 && bytes[0] == LOWER_N && bytes[1] == LOWER_U
            && bytes[2] == LOWER_L && bytes[3] == LOWER_L;
        assert(is_null ==> text@ =~= seq!['n', 'u', 'l', 'l']);
        if is_null || scan_number(bytes, Ghost(text@)) {
            Some(FloatText { text: text.to_owned() })
        } else {
            None
        }
    }

    /// The text of the value.
    pub fn as_str(&self) -> (r: &str)
        ensures
            r@ == self@,
            is_float_text(r@),
    {
        proof {
            use_type_invariant(self);
        }
        self.text.as_str()
    }
}

impl Clone for FloatText {
    fn clone(&self) -> (r: FloatText)
        ensures
            r@ == self@,
    {
        proof {
            use_type_invariant(self);
        }
        FloatText { text: self.text.clone() }
    }
}

} // verus!
