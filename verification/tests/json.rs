use oracle::json::{push_json_decoded, push_json_string, push_json_value};
use oracle::temporal::{SqlDate, SqlDateTime};
use oracle::types::SqlType;
use oracle::values::{decode, Value};

fn string(text: &str) -> String {
    let mut out = String::new();
    push_json_string(&mut out, text);
    out
}

fn value(v: &Value) -> String {
    let mut out = String::new();
    push_json_value(&mut out, v, "1.5");
    out
}

fn cell(bytes: &[u8], indicator: i16, ty: SqlType) -> String {
    let mut out = String::new();
    push_json_decoded(&mut out, &decode(bytes, indicator, ty), "2.5");
    out
}

#[test]
fn strings_are_quoted_and_escaped() {
    assert_eq!(string("ADA"), "\"ADA\"");
    assert_eq!(string(""), "\"\"");
    assert_eq!(string("a\"b"), "\"a\\\"b\"");
    assert_eq!(string("a\\b"), "\"a\\\\b\"");
    assert_eq!(string("a\nb\rc\td"), "\"a\\nb\\rc\\td\"");
    assert_eq!(string("\u{0}\u{1f}\u{8}\u{c}"), "\"\\u0000\\u001f\\u0008\\u000c\"");
    assert_eq!(string("zażółć/\u{7f}"), "\"zażółć/\u{7f}\"");
}

#[test]
fn values_render_by_type() {
    assert_eq!(value(&Value::Int16(-7)), "-7");
    assert_eq!(value(&Value::Int32(7)), "7");
    assert_eq!(value(&Value::Int64(i64::MIN)), "-9223372036854775808");
    assert_eq!(value(&Value::UInt16(0)), "0");
    assert_eq!(value(&Value::UInt32(u32::MAX)), "4294967295");
    assert_eq!(value(&Value::UInt64(u64::MAX)), "18446744073709551615");
    assert_eq!(value(&Value::Boolean(true)), "true");
    assert_eq!(value(&Value::Boolean(false)), "false");
    assert_eq!(value(&Value::Varchar("A\"DA".to_string())), "\"A\\\"DA\"");
    let d = SqlDate::from_ymd(1815, 12, 10).unwrap();
    assert_eq!(value(&Value::Date(d)), "\"1815-12-10\"");
    let t = SqlDateTime::new(d, 1, 2, 3).unwrap();
    assert_eq!(value(&Value::DateTime(t)), "\"1815-12-10T01:02:03\"");
}

#[test]
fn floats_render_as_the_text_of_the_caller() {
    assert_eq!(value(&Value::Float64(1.5f64.to_bits())), "1.5");
    assert_eq!(cell(&2.5f64.to_le_bytes(), 0, SqlType::Float64), "2.5");
    assert_eq!(cell(&2.5f64.to_le_bytes(), -1, SqlType::Float64), "null");
    assert_eq!(cell(&[0; 7], 0, SqlType::Float64), "value cannot be encoded");
    assert_eq!(cell(&7i32.to_le_bytes(), 0, SqlType::Int32), "7");
}

#[test]
fn null_cells_render_as_null() {
    for ty in [SqlType::Int32, SqlType::Varchar, SqlType::Date, SqlType::Boolean, SqlType::Float64]
    {
        assert_eq!(cell(&[1, 2, 3], -1, ty), "null");
    }
}

#[test]
fn cells_render_their_value_or_the_text_of_the_error() {
    assert_eq!(cell(&[7, 0, 0, 0], 0, SqlType::Int32), "7");
    assert_eq!(cell(b"ADA", 0, SqlType::Varchar), "\"ADA\"");
    assert_eq!(cell(&[118, 115, 12, 10, 1, 1, 1], 0, SqlType::Date), "\"1815-12-10\"");
    assert_eq!(cell(&[1, 0], 0, SqlType::Boolean), "true");
    assert_eq!(cell(&[7, 0, 0, 0], 2, SqlType::Int32), "value was truncated");
    assert_eq!(cell(&[7, 0, 0], 0, SqlType::Int32), "value cannot be encoded");
    assert_eq!(cell(b"ADALOVELACE", 3, SqlType::Varchar), "\"ADA\"");
}
