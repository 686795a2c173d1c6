//! Projection of plain Rust values into parameter cells.

use crate::buffer::{ParamBuffer, ParamValue};
use crate::temporal::{SqlDate, SqlDateTime};
use crate::values::{CodecError, Value, ValueView};
use vstd::prelude::*;

verus! {

/// A value that can be written into a parameter cell.
pub trait ValueProjector {
    /// The value as a typed cell value.
    spec fn value(&self) -> ValueView;

    /// Encodes the value into the cell `projection` of `buffer`; see
    /// [`ParamBuffer::projects`].
    fn project_value(&self, buffer: &mut ParamBuffer, projection: &ParamValue) -> (r: Result<
        usize,
        CodecError,
    >)
        requires
            old(buffer).wf(),
            old(buffer).cells().owns(*projection),
        ensures
            old(buffer).projects(*final(buffer), *projection, self.value(), r),
    ;
}

impl ValueProjector for i16 {
    open spec fn value(&self) -> ValueView {
        ValueView::Int16(*self)
    }

    fn project_value(&self, buffer: &mut ParamBuffer, projection: &ParamValue) -> (r: Result<
        usize,
        CodecError,
    >) {
        buffer.project(projection, &Value::Int16(*self))
    }
}

impl ValueProjector for u16 {
    open spec fn value(&self) -> ValueView {
        ValueView::UInt16(*self)
    }

    fn project_value(&self, buffer: &mut ParamBuffer, projection: &ParamValue) -> (r: Result<
        usize,
        CodecError,
    >) {
        buffer.project(projection, &Value::UInt16(*self))
    }
}

impl ValueProjector for i32 {
    open spec fn value(&self) -> ValueView {
        ValueView::Int32(*self)
    }

    fn project_value(&self, buffer: &mut ParamBuffer, projection: &ParamValue) -> (r: Result<
        usize,
        CodecError,
    >) {
        buffer.project(projection, &Value::Int32(*self))
    }
}

impl ValueProjector for u32 {
    open spec fn value(&self) -> ValueView {
        ValueView::UInt32(*self)
    }

    fn project_value(&self, buffer: &mut ParamBuffer, projection: &ParamValue) -> (r: Result<
        usize,
        CodecError,
    >) {
        buffer.project(projection, &Value::UInt32(*self))
    }
}

impl ValueProjector for i64 {
    open spec fn value(&self) -> ValueView {
        ValueView::Int64(*self)
    }

    fn project_value(&self, buffer: &mut ParamBuffer, projection: &ParamValue) -> (r: Result<
        usize,
        CodecError,
    >) {
        buffer.project(projection, &Value::Int64(*self))
    }
}

impl ValueProjector for u64 {
    open spec fn value(&self) -> ValueView {
        ValueView::UInt64(*self)
    }

    fn project_value(&self, buffer: &mut ParamBuffer, projection: &ParamValue) -> (r: Result<
        usize,
        CodecError,
    >) {
        buffer.project(projection, &Value::UInt64(*self))
    }
}

/// A text is written as it is; the empty text is written as NULL.
impl ValueProjector for String {
    open spec fn value(&self) -> ValueView {
        ValueView::Varchar(self@)
    }

    fn project_value(&self, buffer: &mut ParamBuffer, projection: &ParamValue) -> (r: Result<
        usize,
        CodecError,
    >) {
        buffer.project(projection, &Value::Varchar(self.clone()))
    }
}

/// A text is written as it is; the empty text is written as NULL.
impl<'a> ValueProjector for &'a str {
    open spec fn value(&self) -> ValueView {
        ValueView::Varchar(self@)
    }

    fn project_value(&self, buffer: &mut ParamBuffer, projection: &ParamValue) -> (r: Result<
        usize,
        CodecError,
    >) {
        buffer.project(projection, &Value::Varchar(String::from_str(*self)))
    }
}

/// A truth value is written as the 16-bit number one or zero.
impl ValueProjector for bool {
    open spec fn value(&self) -> ValueView {
        ValueView::Boolean(*self)
    }

    fn project_value(&self, buffer: &mut ParamBuffer, projection: &ParamValue) -> (r: Result<
        usize,
        CodecError,
    >) {
        buffer.project(projection, &Value::Boolean(*self))
    }
}

/// A date is written in seven bytes, with a time of day that reads
/// midnight.
impl ValueProjector for SqlDate {
    open spec fn value(&self) -> ValueView {
        ValueView::Date(*self)
    }

    fn project_value(&self, buffer: &mut ParamBuffer, projection: &ParamValue) -> (r: Result<
        usize,
        CodecError,
    >) {
        buffer.project(projection, &Value::Date(*self))
    }
}

/// A date with time is written in eleven bytes.
impl ValueProjector for SqlDateTime {
    open spec fn value(&self) -> ValueView {
        ValueView::DateTime(*self)
    }

    fn project_value(&self, buffer: &mut ParamBuffer, projection: &ParamValue) -> (r: Result<
        usize,
        CodecError,
    >) {
        buffer.project(projection, &Value::DateTime(*self))
    }
}

} // verus!
