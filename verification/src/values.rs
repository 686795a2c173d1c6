//! Value codecs: typed values and the cells that carry them.

use crate::temporal::{SqlDate, SqlDateTime};
use crate::text::text_from_utf8;
use crate::types::{SqlType, INDICATOR_NULL, INDICATOR_VALID};
use crate::wire::{
    date_bytes, datetime_bytes, le_bytes, le_value, lemma_date_round_trip,
    lemma_datetime_round_trip, lemma_le_bytes_len, lemma_le_value_bound, lemma_le_value_of_bytes,
    lemma_pow256_values, lemma_signed_round_trip, on_wire, push_le, read_date,
    read_datetime, read_le, signed_bits, signed_value, to_signed, to_unsigned, wire_date,
    wire_datetime, wire_time_ok, write_date, write_datetime,
};
use vstd::prelude::*;
use vstd::slice::{slice_subrange, slice_to_vec};
use vstd::utf8::{
    decode_utf8, encode_utf8, encode_utf8_decode_utf8, encode_utf8_valid_utf8, valid_utf8,
};

verus! {

/// What can go wrong with a single cell.
#[derive(Clone, Copy, Debug, PartialEq, Eq, Structural)]
pub enum CodecError {
    /// The value has no wire form, or the bytes are no value of the type.
    Encoding,
    /// The value is longer than the cell, or arrived cut short.
    Truncation,
    /// NULL arrived where a value is needed and the type has no default.
    NullViolation,
}

impl CodecError {
    /// The error in words.
    pub open spec fn spec_text(self) -> Seq<char> {
        match self {
            CodecError::Encoding => "value cannot be encoded"@,
            CodecError::Truncation => "value was truncated"@,
            CodecError::NullViolation => "NULL has no value of this type"@,
        }
    }

    pub fn text(self) -> (s: &'static str)
        ensures
            s@ == self.spec_text(),
    {
        match self {
            CodecError::Encoding => "value cannot be encoded",
            CodecError::Truncation => "value was truncated",
            CodecError::NullViolation => "NULL has no value of this type",
        }
    }
}

/// A typed value of one cell. A `Float64` is held as the 64 bits of its
/// IEEE 754 form.
#[derive(Clone, Debug, PartialEq, Eq)]
pub enum Value {
    Int16(i16),
    Int32(i32),
    Int64(i64),
    UInt16(u16),
    UInt32(u32),
    UInt64(u64),
    Float64(u64),
    Varchar(String),
    Date(SqlDate),
    DateTime(SqlDateTime),
    Boolean(bool),
}

/// Mathematical value of a [`Value`].
pub enum ValueView {
    Int16(i16),
    Int32(i32),
    Int64(i64),
    UInt16(u16),
    UInt32(u32),
    UInt64(u64),
    Float64(u64),
    Varchar(Seq<char>),
    Date(SqlDate),
    DateTime(SqlDateTime),
    Boolean(bool),
}

impl View for Value {
    type V = ValueView;

    open spec fn view(&self) -> ValueView {
        match self {
            Value::Int16(v) => ValueView::Int16(*v),
            Value::Int32(v) => ValueView::Int32(*v),
            Value::Int64(v) => ValueView::Int64(*v),
            Value::UInt16(v) => ValueView::UInt16(*v),
            Value::UInt32(v) => ValueView::UInt32(*v),
            Value::UInt64(v) => ValueView::UInt64(*v),
            Value::Float64(bits) => ValueView::Float64(*bits),
            Value::Varchar(s) => ValueView::Varchar(s@),
            Value::Date(d) => ValueView::Date(*d),
            Value::DateTime(t) => ValueView::DateTime(*t),
            Value::Boolean(b) => ValueView::Boolean(*b),
        }
    }
}

impl ValueView {
    /// The SQL type of the value.
    pub open spec fn sql_type(self) -> SqlType {
        match self {
            ValueView::Int16(_) => SqlType::Int16,
            ValueView::Int32(_) => SqlType::Int32,
            ValueView::Int64(_) => SqlType::Int64,
            ValueView::UInt16(_) => SqlType::UInt16,
            ValueView::UInt32(_) => SqlType::UInt32,
            ValueView::UInt64(_) => SqlType::UInt64,
            ValueView::Float64(_) => SqlType::Float64,
            ValueView::Varchar(_) => SqlType::Varchar,
            ValueView::Date(_) => SqlType::Date,
            ValueView::DateTime(_) => SqlType::DateTime,
            ValueView::Boolean(_) => SqlType::Boolean,
        }
    }

    /// The bytes that carry the value, if it has a wire form: whole
    /// numbers lowest byte first, negative ones in two's complement; text
    /// as UTF-8; a truth value as the 16-bit number one or zero.
    pub open spec fn bytes(self) -> Option<Seq<u8>> {
        match self {
            ValueView::Int16(v) => Some(le_bytes(to_unsigned(v as int, 2), 2)),
            ValueView::Int32(v) => Some(le_bytes(to_unsigned(v as int, 4), 4)),
            ValueView::Int64(v) => Some(le_bytes(to_unsigned(v as int, 8), 8)),
            ValueView::UInt16(v) => Some(le_bytes(v as nat, 2)),
            ValueView::UInt32(v) => Some(le_bytes(v as nat, 4)),
            ValueView::UInt64(v) => Some(le_bytes(v as nat, 8)),
            ValueView::Float64(bits) => Some(le_bytes(bits as nat, 8)),
            ValueView::Varchar(s) => Some(encode_utf8(s)),
            ValueView::Date(d) => if d.wf() && on_wire(d.year as int) {
                Some(date_bytes(d))
            } else {
                None
            },
            ValueView::DateTime(t) => if t.wf() && on_wire(t.date.year as int) {
                Some(datetime_bytes(t))
            } else {
                None
            },
            ValueView::Boolean(b) => Some(
                le_bytes(
                    if b {
                        1
                    } else {
                        0
                    },
                    2,
                ),
            ),
        }
    }

    /// What a NULL cell of type `ty` stands for where a value is needed:
    /// zero, `false`, the empty text, and for dates and times the default
    /// that the caller names, if any.
    pub open spec fn null_value(ty: SqlType, default: Option<SqlDateTime>) -> Option<ValueView> {
        match ty {
            SqlType::Int16 => Some(ValueView::Int16(0)),
            SqlType::Int32 => Some(ValueView::Int32(0)),
            SqlType::Int64 => Some(ValueView::Int64(0)),
            SqlType::UInt16 => Some(ValueView::UInt16(0)),
            SqlType::UInt32 => Some(ValueView::UInt32(0)),
            SqlType::UInt64 => Some(ValueView::UInt64(0)),
            SqlType::Float64 => Some(ValueView::Float64(0)),
            SqlType::Varchar => Some(ValueView::Varchar(Seq::empty())),
            SqlType::Date => match default {
                Some(t) => Some(ValueView::Date(t.date)),
                None => None,
            },
            SqlType::DateTime => match default {
                Some(t) => Some(ValueView::DateTime(t)),
                None => None,
            },
            SqlType::Boolean => Some(ValueView::Boolean(false)),
        }
    }
}

impl Value {
    /// The SQL type of the value.
    pub fn sql_type(&self) -> (ty: SqlType)
        ensures
            ty == self@.sql_type(),
    {
        match self {
            Value::Int16(_) => SqlType::Int16,
            Value::Int32(_) => SqlType::Int32,
            Value::Int64(_) => SqlType::Int64,
            Value::UInt16(_) => SqlType::UInt16,
            Value::UInt32(_) => SqlType::UInt32,
            Value::UInt64(_) => SqlType::UInt64,
            Value::Float64(_) => SqlType::Float64,
            Value::Varchar(_) => SqlType::Varchar,
            Value::Date(_) => SqlType::Date,
            Value::DateTime(_) => SqlType::DateTime,
            Value::Boolean(_) => SqlType::Boolean,
        }
    }

    /// What a NULL cell of type `ty` stands for where a value is needed.
    pub fn null_value(ty: SqlType, default: Option<SqlDateTime>) -> (v: Option<Value>)
        ensures
            match v {
                Some(value) => ValueView::null_value(ty, default) == Some(value@),
                None => ValueView::null_value(ty, default) is None,
            },
    {
        match ty {
            SqlType::Int16 => Some(Value::Int16(0)),
            SqlType::Int32 => Some(Value::Int32(0)),
            SqlType::Int64 => Some(Value::Int64(0)),
            SqlType::UInt16 => Some(Value::UInt16(0)),
            SqlType::UInt32 => Some(Value::UInt32(0)),
            SqlType::UInt64 => Some(Value::UInt64(0)),
            SqlType::Float64 => Some(Value::Float64(0)),
            SqlType::Varchar => Some(Value::Varchar(String::new())),
            SqlType::Date => match default {
                Some(t) => Some(Value::Date(t.date)),
                None => None,
            },
            SqlType::DateTime => match default {
                Some(t) => Some(Value::DateTime(t)),
                None => None,
            },
            SqlType::Boolean => Some(Value::Boolean(false)),
        }
    }
}

/// What one cell decodes to: a value, nothing for NULL, or the error of
/// that cell.
pub type TypedCell = Result<Option<Value>, CodecError>;

/// The mathematical value of a decoded cell.
pub open spec fn typed_cell_view(cell: TypedCell) -> Result<Option<ValueView>, CodecError> {
    match cell {
        Ok(Some(v)) => Ok(Some(v@)),
        Ok(None) => Ok(None),
        Err(e) => Err(e),
    }
}

/// What encoding leaves in a cell: the bytes written and the indicator.
#[derive(Clone, Debug, PartialEq, Eq)]
pub struct Encoded {
    pub data: Vec<u8>,
    pub indicator: i16,
}

/// What [`encode`] writes for a value into a cell of `capacity` bytes. An
/// empty text is written as NULL.
pub open spec fn encode_spec(v: ValueView, capacity: nat) -> Result<(Seq<u8>, i16), CodecError> {
    match v.bytes() {
        None => Err(CodecError::Encoding),
        Some(bytes) => if bytes.len() > capacity {
            Err(CodecError::Truncation)
        } else if v is Varchar && bytes.len() == 0 {
            Ok((bytes, INDICATOR_NULL))
        } else {
            Ok((bytes, INDICATOR_VALID))
        },
    }
}

/// The part of a cell that holds data: all of it, or, where a positive
/// indicator tells that fewer bytes arrived, that many.
pub open spec fn cell_data(cell: Seq<u8>, indicator: i16) -> Seq<u8> {
    if 0 < indicator < cell.len() {
        cell.take(indicator as int)
    } else {
        cell
    }
}

/// The value of type `ty` that the bytes `data` carry.
pub open spec fn cell_value(data: Seq<u8>, ty: SqlType) -> Result<ValueView, CodecError> {
    match ty {
        SqlType::Int16 => if data.len() == 2 {
            Ok(ValueView::Int16(to_signed(le_value(data), 2) as i16))
        } else {
            Err(CodecError::Encoding)
        },
        SqlType::Int32 => if data.len() == 4 {
            Ok(ValueView::Int32(to_signed(le_value(data), 4) as i32))
        } else {
            Err(CodecError::Encoding)
        },
        SqlType::Int64 => if data.len() == 8 {
            Ok(ValueView::Int64(to_signed(le_value(data), 8) as i64))
        } else {
            Err(CodecError::Encoding)
        },
        SqlType::UInt16 => if data.len() == 2 {
            Ok(ValueView::UInt16(le_value(data) as u16))
        } else {
            Err(CodecError::Encoding)
        },
        SqlType::UInt32 => if data.len() == 4 {
            Ok(ValueView::UInt32(le_value(data) as u32))
        } else {
            Err(CodecError::Encoding)
        },
        SqlType::UInt64 => if data.len() == 8 {
            Ok(ValueView::UInt64(le_value(data) as u64))
        } else {
            Err(CodecError::Encoding)
        },
        SqlType::Float64 => if data.len() == 8 {
            Ok(ValueView::Float64(le_value(data) as u64))
        } else {
            Err(CodecError::Encoding)
        },
        SqlType::Varchar => if valid_utf8(data) {
            Ok(ValueView::Varchar(decode_utf8(data)))
        } else {
            Err(CodecError::Encoding)
        },
        SqlType::Date => if data.len() == 7 && wire_date(data).wf() {
            Ok(ValueView::Date(wire_date(data)))
        } else {
            Err(CodecError::Encoding)
        },
        SqlType::DateTime => if data.len() == 11 && wire_time_ok(data) && wire_datetime(data).wf() {
            Ok(ValueView::DateTime(wire_datetime(data)))
        } else {
            Err(CodecError::Encoding)
        },
        SqlType::Boolean => if data.len() == 2 {
            Ok(ValueView::Boolean(le_value(data) != 0))
        } else {
            Err(CodecError::Encoding)
        },
    }
}

/// What [`decode`] reads from a cell: nothing when the indicator says NULL;
/// the value when it says valid; and when it says anything else, which
/// marks a value cut short, the part of a text that arrived and an error
/// for every other type.
pub open spec fn decode_spec(cell: Seq<u8>, indicator: i16, ty: SqlType) -> Result<
    Option<ValueView>,
    CodecError,
> {
    if indicator == INDICATOR_NULL {
        Ok(None)
    } else if indicator != INDICATOR_VALID && !(ty is Varchar) {
        Err(CodecError::Truncation)
    } else {
        match cell_value(cell_data(cell, indicator), ty) {
            Ok(v) => Ok(Some(v)),
            Err(e) => Err(e),
        }
    }
}

/// What [`decode_or_default`] reads from a cell: as [`decode_spec`], with
/// the type's NULL value in place of nothing.
pub open spec fn decode_or_default_spec(
    cell: Seq<u8>,
    indicator: i16,
    ty: SqlType,
    default: Option<SqlDateTime>,
) -> Result<ValueView, CodecError> {
    match decode_spec(cell, indicator, ty) {
        Ok(Some(v)) => Ok(v),
        Ok(None) => match ValueView::null_value(ty, default) {
            Some(v) => Ok(v),
            None => Err(CodecError::NullViolation),
        },
        Err(e) => Err(e),
    }
}

/// The bytes of a whole number of `width` bytes.
fn unsigned_cell(v: u64, width: usize) -> (cell: Vec<u8>)
    ensures
        cell@ == le_bytes(v as nat, width as nat),
{
    let mut cell: Vec<u8> = Vec::new();
    push_le(&mut cell, v, width);
    assert(cell@ =~= le_bytes(v as nat, width as nat));
    cell
}

/// The bytes that carry `value`, if it has a wire form.
fn value_bytes(value: &Value) -> (bytes: Option<Vec<u8>>)
    ensures
        match bytes {
            Some(b) => value@.bytes() == Some(b@),
            None => value@.bytes() is None,
        },
{
    proof {
        lemma_pow256_values();
    }
    match value {
        Value::Int16(v) => Some(unsigned_cell(signed_bits(*v as i64, 2), 2)),
        Value::Int32(v) => Some(unsigned_cell(signed_bits(*v as i64, 4), 4)),
        Value::Int64(v) => Some(unsigned_cell(signed_bits(*v, 8), 8)),
        Value::UInt16(v) => Some(unsigned_cell(*v as u64, 2)),
        Value::UInt32(v) => Some(unsigned_cell(*v as u64, 4)),
        Value::UInt64(v) => Some(unsigned_cell(*v, 8)),
        Value::Float64(bits) => Some(unsigned_cell(*bits, 8)),
        Value::Varchar(s) => Some(slice_to_vec(s.as_str().as_bytes())),
        Value::Date(d) => write_date(d),
        Value::DateTime(t) => write_datetime(t),
        Value::Boolean(b) => Some(
            unsigned_cell(
                if *b {
                    1
                } else {
                    0
                },
                2,
            ),
        ),
    }
}

/// Encodes `value` for a cell of `capacity` bytes.
///
/// Fails with [`CodecError::Encoding`] when the value has no wire form (a
/// date that the calendar does not have, or whose year does not fit), and
/// with [`CodecError::Truncation`] when its bytes are more than `capacity`.
pub fn encode(value: &Value, capacity: usize) -> (r: Result<Encoded, CodecError>)
    ensures
        match r {
            Ok(cell) => encode_spec(value@, capacity as nat) == Ok::<(Seq<u8>, i16), CodecError>(
                (cell.data@, cell.indicator),
            ),
            Err(e) => encode_spec(value@, capacity as nat) == Err::<(Seq<u8>, i16), CodecError>(e),
        },
{
    match value_bytes(value) {
        None => Err(CodecError::Encoding),
        Some(data) => {
            if data.len() > capacity {
                Err(CodecError::Truncation)
            } else {
                let empty_text: bool = match value {
                    Value::Varchar(_) => data.len() == 0,
                    _ => false,
                };
                if empty_text {
                    Ok(Encoded { data, indicator: INDICATOR_NULL })
                } else {
                    Ok(Encoded { data, indicator: INDICATOR_VALID })
                }
            }
        },
    }
}

/// What is written for SQL NULL: no bytes, and the NULL indicator.
pub fn encode_null() -> (cell: Encoded)
    ensures
        cell.data@ == Seq::<u8>::empty(),
        cell.indicator == INDICATOR_NULL,
{
    Encoded { data: Vec::new(), indicator: INDICATOR_NULL }
}

/// The value of type `ty` that the bytes `data` carry.
fn read_value(data: &[u8], ty: SqlType) -> (r: Result<Value, CodecError>)
    ensures
        match r {
            Ok(v) => cell_value(data@, ty) == Ok::<ValueView, CodecError>(v@),
            Err(e) => cell_value(data@, ty) == Err::<ValueView, CodecError>(e),
        },
{
    proof {
        lemma_pow256_values();
        lemma_le_value_bound(data@);
        assert(data@.subrange(0, data.len() as int) =~= data@);
    }
    match ty {
        SqlType::Int16 => if data.len() == 2 {
            Ok(Value::Int16(signed_value(read_le(data, 0), 2) as i16))
        } else {
            Err(CodecError::Encoding)
        },
        SqlType::Int32 => if data.len() == 4 {
            Ok(Value::Int32(signed_value(read_le(data, 0), 4) as i32))
        } else {
            Err(CodecError::Encoding)
        },
        SqlType::Int64 => if data.len() == 8 {
            Ok(Value::Int64(signed_value(read_le(data, 0), 8)))
        } else {
            Err(CodecError::Encoding)
        },
        SqlType::UInt16 => if data.len() == 2 {
            Ok(Value::UInt16(read_le(data, 0) as u16))
        } else {
            Err(CodecError::Encoding)
        },
        SqlType::UInt32 => if data.len() == 4 {
            Ok(Value::UInt32(read_le(data, 0) as u32))
        } else {
            Err(CodecError::Encoding)
        },
        SqlType::UInt64 => if data.len() == 8 {
            Ok(Value::UInt64(read_le(data, 0)))
        } else {
            Err(CodecError::Encoding)
        },
        SqlType::Float64 => if data.len() == 8 {
            Ok(Value::Float64(read_le(data, 0)))
        } else {
            Err(CodecError::Encoding)
        },
        SqlType::Varchar => match text_from_utf8(slice_to_vec(data)) {
            Some(s) => Ok(Value::Varchar(s)),
            None => Err(CodecError::Encoding),
        },
        SqlType::Date => if data.len() == 7 {
            match read_date(data) {
                Some(d) => Ok(Value::Date(d)),
                None => Err(CodecError::Encoding),
            }
        } else {
            Err(CodecError::Encoding)
        },
        SqlType::DateTime => if data.len() == 11 {
            match read_datetime(data) {
                Some(t) => Ok(Value::DateTime(t)),
                None => Err(CodecError::Encoding),
            }
        } else {
            Err(CodecError::Encoding)
        },
        SqlType::Boolean => if data.len() == 2 {
            Ok(Value::Boolean(read_le(data, 0) != 0))
        } else {
            Err(CodecError::Encoding)
        },
    }
}

/// Decodes a cell for a target that can hold NULL.
///
/// The indicator is looked at before the bytes: `-1` gives `None`, `0` the
/// value, and anything else marks a value cut short, which is an error
/// but for text, of which the part that arrived is returned.
pub fn decode(cell: &[u8], indicator: i16, ty: SqlType) -> (r: Result<Option<Value>, CodecError>)
    ensures
        match r {
            Ok(Some(v)) => decode_spec(cell@, indicator, ty) == Ok::<
                Option<ValueView>,
                CodecError,
            >(Some(v@)),
            Ok(None) => decode_spec(cell@, indicator, ty) == Ok::<Option<ValueView>, CodecError>(
                None,
            ),
            Err(e) => decode_spec(cell@, indicator, ty) == Err::<Option<ValueView>, CodecError>(e),
        },
{
    if indicator == INDICATOR_NULL {
        return Ok(None);
    }
    if indicator != INDICATOR_VALID {
        match ty {
            SqlType::Varchar => {},
            _ => {
                return Err(CodecError::Truncation);
            },
        }
    }
    let data: &[u8] = if indicator > 0 && (indicator as usize) < cell.len() {
        slice_subrange(cell, 0, indicator as usize)
    } else {
        cell
    };
    assert(data@ =~= cell_data(cell@, indicator));
    match read_value(data, ty) {
        Ok(v) => Ok(Some(v)),
        Err(e) => Err(e),
    }
}

/// Decodes a cell for a target that cannot hold NULL: a NULL cell gives the
/// NULL value of the type, and [`CodecError::NullViolation`] where the type
/// has none because no default date was named.
pub fn decode_or_default(
    cell: &[u8],
    indicator: i16,
    ty: SqlType,
    default: Option<SqlDateTime>,
) -> (r: Result<Value, CodecError>)
    ensures
        match r {
            Ok(v) => decode_or_default_spec(cell@, indicator, ty, default) == Ok::<
                ValueView,
                CodecError,
            >(v@),
            Err(e) => decode_or_default_spec(cell@, indicator, ty, default) == Err::<
                ValueView,
                CodecError,
            >(e),
        },
{
    match decode(cell, indicator, ty) {
        Ok(Some(v)) => Ok(v),
        Ok(None) => match Value::null_value(ty, default) {
            Some(v) => Ok(v),
            None => Err(CodecError::NullViolation),
        },
        Err(e) => Err(e),
    }
}

/// Midnight of a day.
pub open spec fn at_midnight(date: SqlDate) -> SqlDateTime {
    SqlDateTime { date, hour: 0, minute: 0, second: 0 }
}

/// Encodes a text for a cell of `capacity` bytes. The empty text is
/// written as NULL; a text of more than `capacity` bytes is refused.
pub fn encode_varchar(text: &str, capacity: usize) -> (r: Result<Encoded, CodecError>)
    ensures
        match r {
            Ok(cell) => encode_spec(ValueView::Varchar(text@), capacity as nat) == Ok::<
                (Seq<u8>, i16),
                CodecError,
            >((cell.data@, cell.indicator)),
            Err(e) => encode_spec(ValueView::Varchar(text@), capacity as nat) == Err::<
                (Seq<u8>, i16),
                CodecError,
            >(e),
        },
{
    let data = slice_to_vec(text.as_bytes());
    if data.len() > capacity {
        Err(CodecError::Truncation)
    } else if data.len() == 0 {
        Ok(Encoded { data, indicator: INDICATOR_NULL })
    } else {
        Ok(Encoded { data, indicator: INDICATOR_VALID })
    }
}

/// Encodes a truth value as the 16-bit number one or zero.
pub fn encode_bool(b: bool) -> (cell: Encoded)
    ensures
        encode_spec(ValueView::Boolean(b), 2) == Ok::<(Seq<u8>, i16), CodecError>(
            (cell.data@, cell.indicator),
        ),
{
    let val: u64 = if b {
        1
    } else {
        0
    };
    let data = unsigned_cell(val, 2);
    proof {
        lemma_le_bytes_len(val as nat, 2);
    }
    Encoded { data, indicator: INDICATOR_VALID }
}

/// Encodes a date in seven bytes, with a time of day that reads midnight.
pub fn encode_date(d: &SqlDate) -> (r: Result<Encoded, CodecError>)
    ensures
        match r {
            Ok(cell) => encode_spec(ValueView::Date(*d), 7) == Ok::<(Seq<u8>, i16), CodecError>(
                (cell.data@, cell.indicator),
            ),
            Err(e) => encode_spec(ValueView::Date(*d), 7) == Err::<(Seq<u8>, i16), CodecError>(e),
        },
{
    match write_date(d) {
        Some(data) => Ok(Encoded { data, indicator: INDICATOR_VALID }),
        None => Err(CodecError::Encoding),
    }
}

/// Encodes a date with time in eleven bytes.
pub fn encode_datetime(t: &SqlDateTime) -> (r: Result<Encoded, CodecError>)
    ensures
        match r {
            Ok(cell) => encode_spec(ValueView::DateTime(*t), 11) == Ok::<
                (Seq<u8>, i16),
                CodecError,
            >((cell.data@, cell.indicator)),
            Err(e) => encode_spec(ValueView::DateTime(*t), 11) == Err::<
                (Seq<u8>, i16),
                CodecError,
            >(e),
        },
{
    match write_datetime(t) {
        Some(data) => Ok(Encoded { data, indicator: INDICATOR_VALID }),
        None => Err(CodecError::Encoding),
    }
}

/// Decodes a text cell; NULL is the empty text, and of a text cut short
/// the part that arrived is returned.
pub fn decode_varchar(cell: &[u8], indicator: i16) -> (r: Result<String, CodecError>)
    ensures
        match r {
            Ok(s) => decode_or_default_spec(cell@, indicator, SqlType::Varchar, None) == Ok::<
                ValueView,
                CodecError,
            >(ValueView::Varchar(s@)),
            Err(e) => decode_or_default_spec(cell@, indicator, SqlType::Varchar, None) == Err::<
                ValueView,
                CodecError,
            >(e),
        },
{
    match decode_or_default(cell, indicator, SqlType::Varchar, None) {
        Ok(Value::Varchar(s)) => Ok(s),
        Ok(_) => Err(CodecError::Encoding),
        Err(e) => Err(e),
    }
}

/// Decodes a truth value cell: zero is `false`, any other number `true`,
/// and NULL is `false`.
pub fn decode_bool(cell: &[u8], indicator: i16) -> (r: Result<bool, CodecError>)
    ensures
        match r {
            Ok(b) => decode_or_default_spec(cell@, indicator, SqlType::Boolean, None) == Ok::<
                ValueView,
                CodecError,
            >(ValueView::Boolean(b)),
            Err(e) => decode_or_default_spec(cell@, indicator, SqlType::Boolean, None) == Err::<
                ValueView,
                CodecError,
            >(e),
        },
{
    match decode_or_default(cell, indicator, SqlType::Boolean, None) {
        Ok(Value::Boolean(b)) => Ok(b),
        Ok(_) => Err(CodecError::Encoding),
        Err(e) => Err(e),
    }
}

/// Decodes a date cell; NULL is `default`.
pub fn decode_date(cell: &[u8], indicator: i16, default: SqlDate) -> (r: Result<
    SqlDate,
    CodecError,
>)
    ensures
        match r {
            Ok(d) => decode_or_default_spec(
                cell@,
                indicator,
                SqlType::Date,
                Some(at_midnight(default)),
            ) == Ok::<ValueView, CodecError>(ValueView::Date(d)),
            Err(e) => decode_or_default_spec(
                cell@,
                indicator,
                SqlType::Date,
                Some(at_midnight(default)),
            ) == Err::<ValueView, CodecError>(e),
        },
{
    let fallback = SqlDateTime { date: default, hour: 0, minute: 0, second: 0 };
    match decode_or_default(cell, indicator, SqlType::Date, Some(fallback)) {
        Ok(Value::Date(d)) => Ok(d),
        Ok(_) => Err(CodecError::Encoding),
        Err(e) => Err(e),
    }
}

/// Decodes a cell that holds a date with time; NULL is `default`.
pub fn decode_datetime(cell: &[u8], indicator: i16, default: SqlDateTime) -> (r: Result<
    SqlDateTime,
    CodecError,
>)
    ensures
        match r {
            Ok(t) => decode_or_default_spec(cell@, indicator, SqlType::DateTime, Some(default))
                == Ok::<ValueView, CodecError>(ValueView::DateTime(t)),
            Err(e) => decode_or_default_spec(cell@, indicator, SqlType::DateTime, Some(default))
                == Err::<ValueView, CodecError>(e),
        },
{
    match decode_or_default(cell, indicator, SqlType::DateTime, Some(default)) {
        Ok(Value::DateTime(t)) => Ok(t),
        Ok(_) => Err(CodecError::Encoding),
        Err(e) => Err(e),
    }
}

/// A value that can be read from the bytes that carry it is read back
/// unchanged.
pub proof fn lemma_bytes_carry_value(v: ValueView)
    requires
        v.bytes() is Some,
    ensures
        cell_value(v.bytes()->Some_0, v.sql_type()) == Ok::<ValueView, CodecError>(v),
{
    lemma_pow256_values();
    match v {
        ValueView::Int16(x) => {
            lemma_signed_round_trip(x as int, 2);
            lemma_le_bytes_len(to_unsigned(x as int, 2), 2);
            lemma_le_value_of_bytes(to_unsigned(x as int, 2), 2);
        },
        ValueView::Int32(x) => {
            lemma_signed_round_trip(x as int, 4);
            lemma_le_bytes_len(to_unsigned(x as int, 4), 4);
            lemma_le_value_of_bytes(to_unsigned(x as int, 4), 4);
        },
        ValueView::Int64(x) => {
            lemma_signed_round_trip(x as int, 8);
            lemma_le_bytes_len(to_unsigned(x as int, 8), 8);
            lemma_le_value_of_bytes(to_unsigned(x as int, 8), 8);
        },
        ValueView::UInt16(x) => {
            lemma_le_bytes_len(x as nat, 2);
            lemma_le_value_of_bytes(x as nat, 2);
        },
        ValueView::UInt32(x) => {
            lemma_le_bytes_len(x as nat, 4);
            lemma_le_value_of_bytes(x as nat, 4);
        },
        ValueView::UInt64(x) => {
            lemma_le_bytes_len(x as nat, 8);
            lemma_le_value_of_bytes(x as nat, 8);
        },
        ValueView::Float64(bits) => {
            lemma_le_bytes_len(bits as nat, 8);
            lemma_le_value_of_bytes(bits as nat, 8);
        },
        ValueView::Varchar(s) => {
            encode_utf8_valid_utf8(s);
            encode_utf8_decode_utf8(s);
        },
        ValueView::Date(d) => {
            lemma_date_round_trip(d);
        },
        ValueView::DateTime(t) => {
            lemma_datetime_round_trip(t);
        },
        ValueView::Boolean(b) => {
            let n: nat = if b {
                1
            } else {
                0
            };
            lemma_le_bytes_len(n, 2);
            lemma_le_value_of_bytes(n, 2);
        },
    }
}

/// Round trip: whatever value can be encoded is decoded, from the bytes
/// and the indicator that encoding left, to the same value.
pub proof fn law_round_trip(v: ValueView, capacity: nat, default: Option<SqlDateTime>)
    requires
        encode_spec(v, capacity) is Ok,
    ensures
        decode_or_default_spec(
            encode_spec(v, capacity)->Ok_0.0,
            encode_spec(v, capacity)->Ok_0.1,
            v.sql_type(),
            default,
        ) == Ok::<ValueView, CodecError>(v),
{
    lemma_bytes_carry_value(v);
    let bytes = v.bytes()->Some_0;
    if v is Varchar && bytes.len() == 0 {
        let s = v->Varchar_0;
        encode_utf8_decode_utf8(s);
        assert(bytes =~= Seq::<u8>::empty());
        assert(decode_utf8(Seq::<u8>::empty()) =~= Seq::<char>::empty());
    }
}

/// Round trip for a target that can hold NULL: but for the empty text,
/// which is written as NULL, the value comes back as it was.
pub proof fn law_round_trip_nullable(v: ValueView, capacity: nat)
    requires
        encode_spec(v, capacity) is Ok,
        encode_spec(v, capacity)->Ok_0.1 != INDICATOR_NULL,
    ensures
        decode_spec(
            encode_spec(v, capacity)->Ok_0.0,
            encode_spec(v, capacity)->Ok_0.1,
            v.sql_type(),
        ) == Ok::<Option<ValueView>, CodecError>(Some(v)),
{
    lemma_bytes_carry_value(v);
}

/// NULL round trip: the empty text is written with the NULL indicator, and
/// a cell whose indicator says NULL decodes, whatever its bytes, to nothing
/// and, where a value is needed, to the NULL value of its type: the empty
/// text, `false`, zero.
pub proof fn law_null_round_trip(cell: Seq<u8>, ty: SqlType, default: Option<SqlDateTime>)
    ensures
        forall|capacity: nat|
            #[trigger] encode_spec(ValueView::Varchar(Seq::empty()), capacity) == Ok::<
                (Seq<u8>, i16),
                CodecError,
            >((Seq::empty(), INDICATOR_NULL)),
        decode_spec(cell, INDICATOR_NULL, ty) == Ok::<Option<ValueView>, CodecError>(None),
        decode_or_default_spec(cell, INDICATOR_NULL, ty, default) == match ValueView::null_value(
            ty,
            default,
        ) {
            Some(v) => Ok::<ValueView, CodecError>(v),
            None => Err::<ValueView, CodecError>(CodecError::NullViolation),
        },
        ValueView::null_value(SqlType::Varchar, default) == Some(
            ValueView::Varchar(Seq::empty()),
        ),
        ValueView::null_value(SqlType::Boolean, default) == Some(ValueView::Boolean(false)),
        ValueView::null_value(SqlType::Int16, default) == Some(ValueView::Int16(0)),
        ValueView::null_value(SqlType::Int32, default) == Some(ValueView::Int32(0)),
        ValueView::null_value(SqlType::Int64, default) == Some(ValueView::Int64(0)),
        ValueView::null_value(SqlType::UInt16, default) == Some(ValueView::UInt16(0)),
        ValueView::null_value(SqlType::UInt32, default) == Some(ValueView::UInt32(0)),
        ValueView::null_value(SqlType::UInt64, default) == Some(ValueView::UInt64(0)),
        ValueView::null_value(SqlType::Float64, default) == Some(ValueView::Float64(0)),
{
    assert forall|capacity: nat|
        #[trigger] encode_spec(ValueView::Varchar(Seq::empty()), capacity) == Ok::<
            (Seq<u8>, i16),
            CodecError,
        >((Seq::empty(), INDICATOR_NULL)) by {
        assert(encode_utf8(Seq::<char>::empty()) =~= Seq::<u8>::empty());
    }
}

} // verus!
