use oracle::temporal::{SqlDate, SqlDateTime};
use oracle::types::SqlType;
use oracle::values::{
    decode, decode_bool, decode_or_default, decode_varchar, encode, encode_bool, encode_null,
    encode_varchar, CodecError, Value,
};

fn back(value: &Value, capacity: usize) -> Value {
    let cell = encode(value, capacity).expect("encodes");
    decode_or_default(&cell.data, cell.indicator, value.sql_type(), None).expect("decodes")
}

fn same(a: &Value, b: &Value) -> bool {
    format!("{:?}", a) == format!("{:?}", b)
}

#[test]
fn integers_lie_lowest_byte_first() {
    assert_eq!(encode(&Value::Int16(7), 2).unwrap().data, vec![7, 0]);
    assert_eq!(encode(&Value::Int16(-2), 2).unwrap().data, vec![0xFE, 0xFF]);
    assert_eq!(encode(&Value::Int32(0x0102_0304), 4).unwrap().data, vec![4, 3, 2, 1]);
    assert_eq!(encode(&Value::Int32(-1), 4).unwrap().data, vec![0xFF; 4]);
    assert_eq!(
        encode(&Value::Int64(i64::MIN), 8).unwrap().data,
        vec![0, 0, 0, 0, 0, 0, 0, 0x80]
    );
    assert_eq!(encode(&Value::UInt16(0xABCD), 2).unwrap().data, vec![0xCD, 0xAB]);
    assert_eq!(encode(&Value::UInt32(1), 4).unwrap().data, vec![1, 0, 0, 0]);
    assert_eq!(encode(&Value::UInt64(u64::MAX), 8).unwrap().data, vec![0xFF; 8]);
    assert_eq!(encode(&Value::Int32(7), 4).unwrap().indicator, 0);
}

#[test]
fn integers_agree_with_the_machine_layout() {
    for v in [i32::MIN, -70000, -1, 0, 1, 255, 256, 70000, i32::MAX] {
        assert_eq!(encode(&Value::Int32(v), 4).unwrap().data, v.to_le_bytes().to_vec());
    }
    for v in [i64::MIN, -1, 0, 1, i64::MAX] {
        assert_eq!(encode(&Value::Int64(v), 8).unwrap().data, v.to_le_bytes().to_vec());
    }
    for v in [i16::MIN, -1, 0, 1, i16::MAX] {
        assert_eq!(encode(&Value::Int16(v), 2).unwrap().data, v.to_le_bytes().to_vec());
    }
}

#[test]
fn scalar_round_trip_at_the_edges_of_each_type() {
    let values = vec![
        Value::Int16(i16::MIN),
        Value::Int16(-1),
        Value::Int16(0),
        Value::Int16(i16::MAX),
        Value::Int32(i32::MIN),
        Value::Int32(i32::MAX),
        Value::Int64(i64::MIN),
        Value::Int64(-1),
        Value::Int64(i64::MAX),
        Value::UInt16(0),
        Value::UInt16(u16::MAX),
        Value::UInt32(u32::MAX),
        Value::UInt64(u64::MAX),
        Value::Float64(1.5f64.to_bits()),
        Value::Float64((-0.0f64).to_bits()),
        Value::Varchar("ADA".to_string()),
        Value::Varchar("".to_string()),
        Value::Varchar("zażółć \u{1F600}".to_string()),
        Value::Date(SqlDate::from_ymd(1815, 12, 10).unwrap()),
        Value::DateTime(
            SqlDateTime::new(SqlDate::from_ymd(2024, 2, 29).unwrap(), 0, 0, 0).unwrap(),
        ),
        Value::Boolean(true),
        Value::Boolean(false),
    ];
    for v in values.iter() {
        assert!(same(&back(v, 64), v), "{:?}", v);
    }
}

#[test]
fn float_bits_come_back_as_the_same_number() {
    let cell = encode(&Value::Float64(3.25f64.to_bits()), 8).unwrap();
    assert_eq!(cell.data, 3.25f64.to_le_bytes().to_vec());
    match decode(&cell.data, cell.indicator, SqlType::Float64).unwrap() {
        Some(Value::Float64(bits)) => assert_eq!(f64::from_bits(bits), 3.25),
        other => panic!("{:?}", other),
    }
}

#[test]
fn empty_text_is_written_as_null() {
    let cell = encode_varchar("", 10).unwrap();
    assert_eq!(cell.indicator, -1);
    assert!(cell.data.is_empty());
    let cell = encode(&Value::Varchar(String::new()), 0).unwrap();
    assert_eq!(cell.indicator, -1);
    let cell = encode_varchar("A", 10).unwrap();
    assert_eq!(cell.indicator, 0);
    assert_eq!(cell.data, vec![b'A']);
}

#[test]
fn encoding_null_sets_the_indicator() {
    let cell = encode_null();
    assert_eq!(cell.indicator, -1);
    assert!(cell.data.is_empty());
}

#[test]
fn null_decodes_to_the_null_value_of_the_type() {
    let junk = [9u8, 9, 9, 9, 9, 9, 9, 9, 9, 9, 9];
    for ty in [
        SqlType::Int16,
        SqlType::Int32,
        SqlType::Int64,
        SqlType::UInt16,
        SqlType::UInt32,
        SqlType::UInt64,
        SqlType::Float64,
        SqlType::Varchar,
        SqlType::Date,
        SqlType::DateTime,
        SqlType::Boolean,
    ] {
        assert!(decode(&junk, -1, ty).unwrap().is_none(), "{:?}", ty);
    }
    assert_eq!(decode_varchar(&junk, -1).unwrap(), "");
    assert!(!decode_bool(&junk, -1).unwrap());
    assert!(same(
        &decode_or_default(&junk, -1, SqlType::Int32, None).unwrap(),
        &Value::Int32(0)
    ));
    assert!(same(
        &decode_or_default(&junk, -1, SqlType::UInt64, None).unwrap(),
        &Value::UInt64(0)
    ));
    assert!(same(
        &decode_or_default(&junk, -1, SqlType::Float64, None).unwrap(),
        &Value::Float64(0)
    ));
}

#[test]
fn null_date_without_default_is_a_null_violation() {
    assert_eq!(
        decode_or_default(&[], -1, SqlType::Date, None).unwrap_err(),
        CodecError::NullViolation
    );
    assert_eq!(
        decode_or_default(&[], -1, SqlType::DateTime, None).unwrap_err(),
        CodecError::NullViolation
    );
    let noon = SqlDateTime::new(SqlDate::from_ymd(2001, 2, 3).unwrap(), 12, 0, 0).unwrap();
    assert!(same(
        &decode_or_default(&[], -1, SqlType::DateTime, Some(noon)).unwrap(),
        &Value::DateTime(noon)
    ));
    assert!(same(
        &decode_or_default(&[], -1, SqlType::Date, Some(noon)).unwrap(),
        &Value::Date(noon.date)
    ));
}

#[test]
fn text_longer_than_the_cell_is_refused() {
    assert_eq!(encode_varchar("ADA", 2).unwrap_err(), CodecError::Truncation);
    assert!(encode_varchar("ADA", 3).is_ok());
    assert_eq!(
        encode(&Value::Varchar("ä".to_string()), 1).unwrap_err(),
        CodecError::Truncation
    );
    assert_eq!(encode(&Value::Int32(1), 3).unwrap_err(), CodecError::Truncation);
}

#[test]
fn truncated_number_is_an_error_and_truncated_text_a_prefix() {
    assert_eq!(decode(&[1, 0, 0, 0], 2, SqlType::Int32).unwrap_err(), CodecError::Truncation);
    assert_eq!(decode(&[0; 7], 3, SqlType::Date).unwrap_err(), CodecError::Truncation);
    assert_eq!(decode(&[1, 0], 9, SqlType::Boolean).unwrap_err(), CodecError::Truncation);
    assert_eq!(decode_varchar(b"ADALOVELACE", 3).unwrap(), "ADA");
    assert_eq!(decode_varchar(b"ADA", 40).unwrap(), "ADA");
    assert_eq!(decode_varchar(b"ADA", 0).unwrap(), "ADA");
}

#[test]
fn bytes_that_are_no_value_are_refused() {
    assert_eq!(decode(&[1, 0, 0], 0, SqlType::Int32).unwrap_err(), CodecError::Encoding);
    assert_eq!(decode(&[1], 0, SqlType::Boolean).unwrap_err(), CodecError::Encoding);
    assert_eq!(decode(&[0; 9], 0, SqlType::UInt64).unwrap_err(), CodecError::Encoding);
    assert_eq!(decode(&[0; 6], 0, SqlType::Date).unwrap_err(), CodecError::Encoding);
    assert_eq!(decode_varchar(&[0xFF, 0xFE], 0).unwrap_err(), CodecError::Encoding);
    assert_eq!(decode_varchar(&[0xC3], 0).unwrap_err(), CodecError::Encoding);
}

#[test]
fn text_is_read_as_utf8() {
    assert_eq!(decode_varchar("zażółć".as_bytes(), 0).unwrap(), "zażółć");
    assert_eq!(decode_varchar(b"", 0).unwrap(), "");
}

#[test]
fn truth_values_travel_as_sixteen_bit_numbers() {
    assert_eq!(encode_bool(true).data, vec![1, 0]);
    assert_eq!(encode_bool(false).data, vec![0, 0]);
    assert_eq!(encode_bool(true).indicator, 0);
    assert!(decode_bool(&[1, 0], 0).unwrap());
    assert!(decode_bool(&[0, 1], 0).unwrap());
    assert!(!decode_bool(&[0, 0], 0).unwrap());
}

#[test]
fn codec_errors_in_words() {
    assert_eq!(CodecError::Encoding.text(), "value cannot be encoded");
    assert_eq!(CodecError::Truncation.text(), "value was truncated");
    assert_eq!(CodecError::NullViolation.text(), "NULL has no value of this type");
}
