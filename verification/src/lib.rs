//! Typed statement, parameter and result handling for an Oracle client.
//!
//! The crate models the layer between a native database cursor and typed
//! application code: the SQL type registry, the per-type value codecs, the
//! parameter and result buffers with their fixed layout, the statement and
//! fetch state machines, and the dynamic queries that are built at runtime
//! from catalog metadata and rendered as JSON text.

pub mod buffer;
pub mod dynamic;
pub mod json;
pub mod meta;
pub mod parameter;
pub mod projector;
pub mod providers;
pub mod query;
pub mod shape;
pub mod statement;
pub mod temporal;
pub mod text;
pub mod types;
pub mod values;
pub mod wire;

pub use buffer::{ParamValue, ParamsProjection, ResultSet, ResultValue};
pub use projector::ValueProjector;
pub use query::{Query, QueryIterator, ResultsProvider};
pub use statement::{ParamsProvider, SqlError, Statement};
pub use temporal::{SqlDate, SqlDateTime};
pub use types::{Identifier, Member, SqlType, TypeDescriptor};
