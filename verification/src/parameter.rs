//! Filter values: texts that are parsed to the type of their column.

use crate::buffer::{ParamBuffer, ParamValue};
use crate::projector::ValueProjector;
use crate::text::{parse_in_range, parse_integer, ParseReason};
use crate::types::SqlType;
use crate::values::{CodecError, ValueView};
use vstd::prelude::*;

verus! {

/// Why a text cannot serve as the value of a filter column.
#[derive(Clone, Copy, Debug, PartialEq, Eq, Structural)]
pub enum ParameterError {
    /// The column's type cannot be used as a filter key.
    UnsupportedType,
    /// The text is no number of the column's type.
    Invalid(ParseReason),
}

impl ParameterError {
    /// The error in words.
    pub open spec fn spec_text(self) -> Seq<char> {
        match self {
            ParameterError::UnsupportedType => "Not supported type for Primary key"@,
            ParameterError::Invalid(reason) => reason.spec_text(),
        }
    }

    pub fn text(self) -> (s: &'static str)
        ensures
            s@ == self.spec_text(),
    {
        match self {
            ParameterError::UnsupportedType => "Not supported type for Primary key",
            ParameterError::Invalid(reason) => reason.text(),
        }
    }
}

/// A filter value, parsed to the type of its column.
#[derive(Clone, Debug, PartialEq, Eq)]
pub enum ParsedParameter {
    Int16(i16),
    Int32(i32),
    Int64(i64),
    Varchar(String),
}

/// Mathematical value of a [`ParsedParameter`].
pub enum ParsedValue {
    Int16(i16),
    Int32(i32),
    Int64(i64),
    Varchar(Seq<char>),
}

impl View for ParsedParameter {
    type V = ParsedValue;

    open spec fn view(&self) -> ParsedValue {
        match self {
            ParsedParameter::Int16(v) => ParsedValue::Int16(*v),
            ParsedParameter::Int32(v) => ParsedValue::Int32(*v),
            ParsedParameter::Int64(v) => ParsedValue::Int64(*v),
            ParsedParameter::Varchar(s) => ParsedValue::Varchar(s@),
        }
    }
}

impl ParsedValue {
    /// The SQL type whose filter values parse to this variant.
    pub open spec fn sql_type(self) -> SqlType {
        match self {
            ParsedValue::Int16(_) => SqlType::Int16,
            ParsedValue::Int32(_) => SqlType::Int32,
            ParsedValue::Int64(_) => SqlType::Int64,
            ParsedValue::Varchar(_) => SqlType::Varchar,
        }
    }

    /// The filter value as a typed cell value.
    pub open spec fn value(self) -> ValueView {
        match self {
            ParsedValue::Int16(v) => ValueView::Int16(v),
            ParsedValue::Int32(v) => ValueView::Int32(v),
            ParsedValue::Int64(v) => ValueView::Int64(v),
            ParsedValue::Varchar(s) => ValueView::Varchar(s),
        }
    }
}

impl ParsedParameter {
    /// What `value` means as a filter on a column of type `tp`: a number of
    /// that type for the signed integer types, the text itself for
    /// `Varchar`, and nothing for any other type.
    pub open spec fn spec_parse(tp: SqlType, value: Seq<char>) -> Result<
        ParsedValue,
        ParameterError,
    > {
        match tp {
            SqlType::Int16 => match parse_integer(value, i16::MIN as int, i16::MAX as int) {
                Ok(v) => Ok(ParsedValue::Int16(v as i16)),
                Err(reason) => Err(ParameterError::Invalid(reason)),
            },
            SqlType::Int32 => match parse_integer(value, i32::MIN as int, i32::MAX as int) {
                Ok(v) => Ok(ParsedValue::Int32(v as i32)),
                Err(reason) => Err(ParameterError::Invalid(reason)),
            },
            SqlType::Int64 => match parse_integer(value, i64::MIN as int, i64::MAX as int) {
                Ok(v) => Ok(ParsedValue::Int64(v as i64)),
                Err(reason) => Err(ParameterError::Invalid(reason)),
            },
            SqlType::Varchar => Ok(ParsedValue::Varchar(value)),
            _ => Err(ParameterError::UnsupportedType),
        }
    }

    /// Parses the text of a filter value to the type of its column.
    pub fn parse(tp: SqlType, value: String) -> (r: Result<ParsedParameter, ParameterError>)
        ensures
            match r {
                Ok(p) => Self::spec_parse(tp, value@) == Ok::<ParsedValue, ParameterError>(p@),
                Err(e) => Self::spec_parse(tp, value@) == Err::<ParsedValue, ParameterError>(e),
            },
    {
        match tp {
            SqlType::Int16 => match parse_in_range(
                value.as_str(),
                i16::MIN as i64,
                i16::MAX as i64,
            ) {
                Ok(v) => Ok(ParsedParameter::Int16(v as i16)),
                Err(reason) => Err(ParameterError::Invalid(reason)),
            },
            SqlType::Int32 => match parse_in_range(
                value.as_str(),
                i32::MIN as i64,
                i32::MAX as i64,
            ) {
                Ok(v) => Ok(ParsedParameter::Int32(v as i32)),
                Err(reason) => Err(ParameterError::Invalid(reason)),
            },
            SqlType::Int64 => match parse_in_range(value.as_str(), i64::MIN, i64::MAX) {
                Ok(v) => Ok(ParsedParameter::Int64(v)),
                Err(reason) => Err(ParameterError::Invalid(reason)),
            },
            SqlType::Varchar => Ok(ParsedParameter::Varchar(value)),
            _ => Err(ParameterError::UnsupportedType),
        }
    }

    /// Encodes the filter value into the parameter cell `p` of `buffer`;
    /// see [`ParamBuffer::projects`].
    pub fn project_value(&self, buffer: &mut ParamBuffer, p: &ParamValue) -> (r: Result<
        usize,
        CodecError,
    >)
        requires
            old(buffer).wf(),
            old(buffer).cells().owns(*p),
        ensures
            old(buffer).projects(*final(buffer), *p, self@.value(), r),
    {
        match self {
            ParsedParameter::Int16(val) => val.project_value(buffer, p),
            ParsedParameter::Int32(val) => val.project_value(buffer, p),
            ParsedParameter::Int64(val) => val.project_value(buffer, p),
            ParsedParameter::Varchar(val) => val.project_value(buffer, p),
        }
    }
}

} // verus!
