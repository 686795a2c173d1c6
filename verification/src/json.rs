//! JSON text of decoded cells and of whole rows.

use crate::text::{
    char_at, chars_of, decimal, digit_char, join, push_char, push_decimal, push_signed_decimal,
    signed_decimal,
};
use crate::types::{SqlType, INDICATOR_NULL};
use crate::values::{decode_spec, typed_cell_view, CodecError, TypedCell, Value, ValueView};
use vstd::prelude::*;

verus! {

/// The character that stands for the hexadecimal digit `d`, in lower case.
pub open spec fn hex_char(d: nat) -> char {
    if d < 10 {
        digit_char(d)
    } else {
        ((d + 87) as u8) as char
    }
}

/// How one character stands inside a JSON string: quotation mark and
/// backslash behind a backslash, the control characters by their short
/// form or their code, every other character as itself.
pub open spec fn json_escape_char(c: char) -> Seq<char> {
    if c == '"' {
        seq!['\\', '"']
    } else if c == '\\' {
        seq!['\\', '\\']
    } else if c == '\n' {
        seq!['\\', 'n']
    } else if c == '\r' {
        seq!['\\', 'r']
    } else if c == '\t' {
        seq!['\\', 't']
    } else if (c as u32) < 0x20 {
        seq![
            '\\',
            'u',
            '0',
            '0',
            hex_char((c as u32 / 16) as nat),
            hex_char((c as u32 % 16) as nat),
        ]
    } else {
        seq![c]
    }
}

/// The characters of a text as they stand inside a JSON string.
pub open spec fn json_escape(s: Seq<char>) -> Seq<char>
    decreases s.len(),
{
    if s.len() == 0 {
        Seq::empty()
    } else {
        json_escape(s.drop_last()) + json_escape_char(s.last())
    }
}

/// A text as a JSON string.
pub open spec fn json_string(s: Seq<char>) -> Seq<char> {
    seq!['"'] + json_escape(s) + seq!['"']
}

/// Renders floating point numbers. The library carries such a number as its
/// 64 bits and takes the text that stands for it in JSON from its caller.
pub trait FloatRenderer {
    /// The JSON text of the number with the given IEEE 754 bits.
    fn render(&self, bits: u64) -> String;
}

/// A value as JSON: a number for whole numbers, `true` or `false`, a
/// string for text, and a string in ISO 8601 notation for dates and times.
/// For a floating point number it is `float`, the text that the caller has
/// for it.
pub open spec fn json_value(v: ValueView, float: Seq<char>) -> Seq<char> {
    match v {
        ValueView::Int16(x) => signed_decimal(x as int),
        ValueView::Int32(x) => signed_decimal(x as int),
        ValueView::Int64(x) => signed_decimal(x as int),
        ValueView::UInt16(x) => decimal(x as nat),
        ValueView::UInt32(x) => decimal(x as nat),
        ValueView::UInt64(x) => decimal(x as nat),
        ValueView::Float64(_) => float,
        ValueView::Varchar(s) => json_string(s),
        ValueView::Date(d) => seq!['"'] + d.iso() + seq!['"'],
        ValueView::DateTime(t) => seq!['"'] + t.iso() + seq!['"'],
        ValueView::Boolean(b) => if b {
            "true"@
        } else {
            "false"@
        },
    }
}

/// What stands for a decoded cell in a rendered row: `null` for NULL, the
/// value as JSON, or, where the cell could not be decoded, the text of the
/// error.
pub open spec fn json_decoded(cell: Result<Option<ValueView>, CodecError>, float: Seq<char>) -> Seq<
    char,
> {
    match cell {
        Ok(None) => "null"@,
        Ok(Some(v)) => json_value(v, float),
        Err(e) => e.spec_text(),
    }
}

/// What stands for a cell in a rendered row; see [`json_decoded`].
pub open spec fn json_cell(cell: Seq<u8>, indicator: i16, ty: SqlType, float: Seq<char>) -> Seq<
    char,
> {
    json_decoded(decode_spec(cell, indicator, ty), float)
}

/// One member of a JSON object: the key between quotation marks, a colon,
/// and the value.
pub open spec fn json_member(name: Seq<char>, value: Seq<char>) -> Seq<char> {
    seq!['"'] + name + seq!['"', ':'] + value
}

/// A JSON object of the given members.
pub open spec fn json_object(members: Seq<Seq<char>>) -> Seq<char> {
    seq!['{'] + join(members, ","@) + seq!['}']
}

/// A JSON array of the given elements.
pub open spec fn json_array(elements: Seq<Seq<char>>) -> Seq<char> {
    seq!['['] + join(elements, ","@) + seq![']']
}

/// Appends one character as it stands inside a JSON string.
fn push_escaped_char(out: &mut String, c: char)
    ensures
        final(out)@ == old(out)@ + json_escape_char(c),
{
    let code: u32 = c as u32;
    if c == '"' {
        push_char(out, '\\');
        push_char(out, '"');
    } else if c == '\\' {
        push_char(out, '\\');
        push_char(out, '\\');
    } else if c == '\n' {
        push_char(out, '\\');
        push_char(out, 'n');
    } else if c == '\r' {
        push_char(out, '\\');
        push_char(out, 'r');
    } else if c == '\t' {
        push_char(out, '\\');
        push_char(out, 't');
    } else if code < 0x20 {
        let high: u8 = (code / 16) as u8;
        let low: u8 = (code % 16) as u8;
        push_char(out, '\\');
        push_char(out, 'u');
        push_char(out, '0');
        push_char(out, '0');
        push_char(out, (high + 48) as char);
        push_char(
            out,
            if low < 10 {
                (low + 48) as char
            } else {
                (low + 87) as char
            },
        );
    } else {
        push_char(out, c);
    }
    assert(final(out)@ =~= old(out)@ + json_escape_char(c));
}

/// Appends a text as a JSON string.
pub fn push_json_string(out: &mut String, text: &str)
    ensures
        final(out)@ == old(out)@ + json_string(text@),
{
    let chars = chars_of(text);
    push_char(out, '"');
    let mut i: usize = 0;
    while i < chars.len()
        invariant
            i <= chars.len(),
            chars@ == text@,
            out@ == old(out)@ + seq!['"'] + json_escape(chars@.take(i as int)),
        decreases chars.len() - i,
    {
        let c: char = char_at(&chars, i);
        let ghost before = out@;
        push_escaped_char(out, c);
        i += 1;
        proof {
            assert(chars@.take(i as int).drop_last() =~= chars@.take(i - 1));
            assert(out@ =~= old(out)@ + seq!['"'] + json_escape(chars@.take(i as int)));
        }
    }
    assert(chars@.take(chars.len() as int) =~= chars@);
    push_char(out, '"');
    assert(out@ =~= old(out)@ + json_string(text@));
}

/// Appends a value as JSON; for a floating point number it appends
/// `float`, the text that the caller has for it.
pub fn push_json_value(out: &mut String, value: &Value, float: &str)
    ensures
        final(out)@ == old(out)@ + json_value(value@, float@),
{
    match value {
        Value::Int16(x) => {
            push_signed_decimal(out, *x as i64);
        },
        Value::Int32(x) => {
            push_signed_decimal(out, *x as i64);
        },
        Value::Int64(x) => {
            push_signed_decimal(out, *x);
        },
        Value::UInt16(x) => {
            push_decimal(out, *x as u64);
        },
        Value::UInt32(x) => {
            push_decimal(out, *x as u64);
        },
        Value::UInt64(x) => {
            push_decimal(out, *x);
        },
        Value::Float64(_) => {
            out.append(float);
        },
        Value::Varchar(s) => {
            push_json_string(out, s.as_str());
        },
        Value::Date(d) => {
            push_char(out, '"');
            d.push_iso(out);
            push_char(out, '"');
            assert(out@ =~= old(out)@ + (seq!['"'] + d.iso() + seq!['"']));
        },
        Value::DateTime(t) => {
            push_char(out, '"');
            t.push_iso(out);
            push_char(out, '"');
            assert(out@ =~= old(out)@ + (seq!['"'] + t.iso() + seq!['"']));
        },
        Value::Boolean(b) => {
            if *b {
                out.append("true");
            } else {
                out.append("false");
            }
        },
    }
}

/// Appends what stands for a decoded cell in a rendered row; `float` is
/// the text that the caller has for the number when the cell holds one.
pub fn push_json_decoded(out: &mut String, cell: &TypedCell, float: &str)
    ensures
        final(out)@ == old(out)@ + json_decoded(typed_cell_view(*cell), float@),
{
    match cell {
        Ok(None) => {
            out.append("null");
        },
        Ok(Some(v)) => {
            push_json_value(out, v, float);
        },
        Err(e) => {
            out.append(e.text());
        },
    }
}

/// NULL cells render as `null`, whatever their type, their bytes and the
/// text that the caller has for floating point numbers.
pub proof fn law_null_renders_as_null(cell: Seq<u8>, ty: SqlType, float: Seq<char>)
    ensures
        json_cell(cell, INDICATOR_NULL, ty, float) == "null"@,
{
}

/// The text for floating point numbers shows in cells of that type only.
pub proof fn lemma_float_text_in_float_cells_only(
    cell: Seq<u8>,
    indicator: i16,
    ty: SqlType,
    one: Seq<char>,
    other: Seq<char>,
)
    requires
        !(ty is Float64),
    ensures
        json_cell(cell, indicator, ty, one) == json_cell(cell, indicator, ty, other),
{
}

} // verus!
