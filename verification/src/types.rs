//! SQL type registry: the supported logical types and their native layout.

use vstd::prelude::*;

verus! {

/// Indicator of a cell that holds SQL NULL.
pub const INDICATOR_NULL: i16 = -1;

/// Indicator of a cell that holds a complete value.
pub const INDICATOR_VALID: i16 = 0;

/// Native type code of character data.
pub const NATIVE_CHR: u16 = 1;

/// Native type code of signed integers.
pub const NATIVE_INT: u16 = 3;

/// Native type code of floating point numbers.
pub const NATIVE_FLT: u16 = 4;

/// Native type code of seven-byte dates.
pub const NATIVE_DAT: u16 = 12;

/// Native type code of unsigned integers.
pub const NATIVE_UIN: u16 = 68;

/// Native type code of eleven-byte timestamps.
pub const NATIVE_TIMESTAMP: u16 = 180;

/// The logical SQL types that a parameter or a result column can have.
#[derive(Clone, Copy, Debug, PartialEq, Eq, Structural)]
pub enum SqlType {
    Int16,
    Int32,
    Int64,
    UInt16,
    UInt32,
    UInt64,
    Float64,
    Varchar,
    Date,
    DateTime,
    Boolean,
}

impl SqlType {
    /// Width in bytes of a cell of this type; a `Varchar` cell is as wide as
    /// its declared maximum length.
    pub open spec fn spec_width(self, max_len: nat) -> nat {
        match self {
            SqlType::Int16 => 2,
            SqlType::Int32 => 4,
            SqlType::Int64 => 8,
            SqlType::UInt16 => 2,
            SqlType::UInt32 => 4,
            SqlType::UInt64 => 8,
            SqlType::Float64 => 8,
            SqlType::Varchar => max_len,
            SqlType::Date => 7,
            SqlType::DateTime => 11,
            SqlType::Boolean => 2,
        }
    }

    /// Type code under which the native cursor binds a cell of this type.
    /// A `Boolean` travels as a 16-bit unsigned integer.
    pub open spec fn spec_native_code(self) -> u16 {
        match self {
            SqlType::Int16 | SqlType::Int32 | SqlType::Int64 => NATIVE_INT,
            SqlType::UInt16 | SqlType::UInt32 | SqlType::UInt64 | SqlType::Boolean => NATIVE_UIN,
            SqlType::Float64 => NATIVE_FLT,
            SqlType::Varchar => NATIVE_CHR,
            SqlType::Date => NATIVE_DAT,
            SqlType::DateTime => NATIVE_TIMESTAMP,
        }
    }

    /// Whether the type holds a whole number.
    pub open spec fn spec_is_integer(self) -> bool {
        self is Int16 || self is Int32 || self is Int64 || self is UInt16 || self is UInt32
            || self is UInt64
    }

    pub fn width(self, max_len: usize) -> (w: usize)
        ensures
            w == self.spec_width(max_len as nat),
    {
        match self {
            SqlType::Int16 | SqlType::UInt16 | SqlType::Boolean => 2,
            SqlType::Int32 | SqlType::UInt32 => 4,
            SqlType::Int64 | SqlType::UInt64 | SqlType::Float64 => 8,
            SqlType::Varchar => max_len,
            SqlType::Date => 7,
            SqlType::DateTime => 11,
        }
    }

    #[verifier::when_used_as_spec(spec_native_code)]
    pub fn native_code(self) -> (code: u16)
        ensures
            code == self.spec_native_code(),
    {
        match self {
            SqlType::Int16 | SqlType::Int32 | SqlType::Int64 => NATIVE_INT,
            SqlType::UInt16 | SqlType::UInt32 | SqlType::UInt64 | SqlType::Boolean => NATIVE_UIN,
            SqlType::Float64 => NATIVE_FLT,
            SqlType::Varchar => NATIVE_CHR,
            SqlType::Date => NATIVE_DAT,
            SqlType::DateTime => NATIVE_TIMESTAMP,
        }
    }

    #[verifier::when_used_as_spec(spec_is_integer)]
    pub fn is_integer(self) -> (b: bool)
        ensures
            b == self.spec_is_integer(),
    {
        match self {
            SqlType::Int16 | SqlType::Int32 | SqlType::Int64 | SqlType::UInt16 | SqlType::UInt32
            | SqlType::UInt64 => true,
            _ => false,
        }
    }
}

/// Everything the native layer needs to bind one parameter or define one
/// result column.
#[derive(Clone, Copy, Debug, PartialEq, Eq, Structural)]
pub struct TypeDescriptor {
    /// Logical type.
    pub sql_type: SqlType,
    /// Type code handed to the native cursor.
    pub native_code: u16,
    /// Declared width of a cell in bytes.
    pub width: usize,
    /// Longest value in bytes that a character cell can carry; zero for the
    /// other types.
    pub max_len: usize,
}

impl TypeDescriptor {
    /// A descriptor is well formed when its native code and width are those
    /// that the registry gives for its logical type.
    pub open spec fn wf(self) -> bool {
        &&& self.native_code == self.sql_type.spec_native_code()
        &&& self.width == self.sql_type.spec_width(self.max_len as nat)
        &&& !(self.sql_type is Varchar) ==> self.max_len == 0
    }

    /// The descriptor that [`TypeDescriptor::new`] builds.
    pub open spec fn spec_new(sql_type: SqlType, max_len: usize) -> TypeDescriptor {
        let kept: usize = if sql_type is Varchar {
            max_len
        } else {
            0
        };
        TypeDescriptor {
            sql_type,
            native_code: sql_type.spec_native_code(),
            width: sql_type.spec_width(kept as nat) as usize,
            max_len: kept,
        }
    }

    /// Descriptor of `sql_type`; `max_len` is the declared maximum length of
    /// a `Varchar` and is ignored for every other type.
    pub fn new(sql_type: SqlType, max_len: usize) -> (d: TypeDescriptor)
        ensures
            d == Self::spec_new(sql_type, max_len),
            d.wf(),
    {
        let kept: usize = match sql_type {
            SqlType::Varchar => max_len,
            _ => 0,
        };
        TypeDescriptor {
            sql_type,
            native_code: sql_type.native_code(),
            width: sql_type.width(kept),
            max_len: kept,
        }
    }
}

/// How a parameter slot is addressed.
#[derive(Clone, Debug, PartialEq, Eq)]
pub enum Identifier {
    /// By its position in the statement.
    Unnamed,
    /// By the name of its placeholder.
    Named(String),
}

/// One parameter slot of a statement.
#[derive(Clone, Debug, PartialEq, Eq)]
pub struct Member {
    pub descriptor: TypeDescriptor,
    pub identifier: Identifier,
}

impl Member {
    pub fn new(descriptor: TypeDescriptor, identifier: Identifier) -> (m: Member)
        ensures
            m.descriptor == descriptor,
            m.identifier == identifier,
    {
        Member { descriptor, identifier }
    }
}

} // verus!
