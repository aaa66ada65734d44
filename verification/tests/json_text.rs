use request_middleware::json::{append_decimal, append_signed_decimal, render_object, utf8_bytes, FloatText};
use request_middleware::json_logging::fields::{Field, RecordedValue};

fn field(name: &str, value: RecordedValue) -> Field {
    Field { name: name.to_string(), value }
}

#[test]
fn float_text_accepts_json_numbers() {
    for text in ["0", "-0", "1", "12", "0.03", "-1.5", "1e21", "1E+2", "2.5e-7", "1.0", "null"] {
        let parsed = FloatText::parse(text);
        assert!(parsed.is_some(), "{}", text);
        assert_eq!(parsed.unwrap().as_str(), text);
    }
}

#[test]
fn float_text_rejects_what_is_no_number() {
    for text in [
        "", "-", "01", "00", ".5", "1.", "1e", "1e+", "+1", "1.5.2", "1 ", " 1", "NaN", "inf", "nul",
        "nulls", "0x10", "1e1.5", "١٢", "1,5", "--1", "true",
    ] {
        assert!(FloatText::parse(text).is_none(), "{}", text);
    }
}

#[test]
fn float_text_clone_keeps_the_text() {
    let value = FloatText::parse("0.03").unwrap();
    assert_eq!(value.clone(), value);
}

#[test]
fn decimal_of_unsigned_numbers() {
    for n in [0u64, 7, 10, 99, 100, 1234567890, u64::MAX] {
        let mut out = String::from(">");
        append_decimal(&mut out, n);
        assert_eq!(out, format!(">{}", n));
    }
}

#[test]
fn decimal_of_signed_numbers() {
    for i in [0i64, 1, -1, 42, -42, i64::MAX, i64::MIN] {
        let mut out = String::new();
        append_signed_decimal(&mut out, i);
        assert_eq!(out, format!("{}", i));
    }
    let mut out = String::new();
    append_signed_decimal(&mut out, i64::MIN);
    assert_eq!(out, "-9223372036854775808");
}

#[test]
fn empty_object() {
    assert_eq!(render_object(&vec![]), "{}");
}

#[test]
fn object_with_each_kind_of_value() {
    let fields = vec![
        field("f", RecordedValue::F64(FloatText::parse("0.03").unwrap())),
        field("i", RecordedValue::I64(-5)),
        field("u", RecordedValue::U64(18446744073709551615)),
        field("yes", RecordedValue::Bool(true)),
        field("no", RecordedValue::Bool(false)),
        field("s", RecordedValue::String("text".to_string())),
    ];
    assert_eq!(
        render_object(&fields),
        r#"{"f":0.03,"i":-5,"u":18446744073709551615,"yes":true,"no":false,"s":"text"}"#
    );
}

#[test]
fn strings_and_names_are_escaped() {
    let fields = vec![field("a\"b", RecordedValue::String("line\nbreak\t\"quoted\" \\ \u{1} é".to_string()))];
    let text = render_object(&fields);
    assert_eq!(text, "{\"a\\\"b\":\"line\\nbreak\\t\\\"quoted\\\" \\\\ \\u0001 é\"}");
    let parsed: serde_json::Value = serde_json::from_str(&text).unwrap();
    assert_eq!(parsed["a\"b"], "line\nbreak\t\"quoted\" \\ \u{1} é");
}

#[test]
fn rendered_object_is_read_back_by_a_json_parser() {
    let fields = vec![
        field("status", RecordedValue::U64(500)),
        field("ratio", RecordedValue::F64(FloatText::parse("2.5e-7").unwrap())),
        field("missing", RecordedValue::F64(FloatText::parse("null").unwrap())),
    ];
    let parsed: serde_json::Value = serde_json::from_str(&render_object(&fields)).unwrap();
    assert_eq!(parsed["status"], 500);
    assert_eq!(parsed["ratio"].as_f64(), Some(2.5e-7));
    assert!(parsed["missing"].is_null());
}

#[test]
fn bytes_of_text() {
    assert_eq!(utf8_bytes("aé€"), "aé€".as_bytes().to_vec());
    assert_eq!(utf8_bytes(""), Vec::<u8>::new());
}

#[test]
fn values_from_plain_values() {
    assert_eq!(RecordedValue::from(3i64), RecordedValue::I64(3));
    assert_eq!(RecordedValue::from(3u64), RecordedValue::U64(3));
    assert_eq!(RecordedValue::from(true), RecordedValue::Bool(true));
    assert_eq!(RecordedValue::from("x".to_string()), RecordedValue::String("x".to_string()));
    let float = FloatText::parse("1.5").unwrap();
    assert_eq!(RecordedValue::from(float.clone()), RecordedValue::F64(float));
}
