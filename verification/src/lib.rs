//! A verified core for a SQL/PL-SQL statement engine: typed value cells that
//! convert between a dynamically typed buffer representation and a fixed set
//! of host types, a type catalog mapping logical database types to native
//! buffer encodings, bind-variable resolution by position or case-insensitive
//! name, and a prepare / bind / execute / fetch statement lifecycle.
//!
//! Network round trips to a database server are outside this crate: the
//! statement engine consumes their outcomes (column metadata, delivered rows)
//! as plain values and is verified for every such outcome.

pub mod error;
pub mod text;
pub mod types;
pub mod datetime;
pub mod sqltext;
pub mod statement;
pub mod value;

pub use datetime::{IntervalDS, IntervalYM, Timestamp};
pub use error::Error;
pub use statement::{
    BindIndex, ColumnIndex, ColumnInfo, ExecOutcome, HostValue, Row, Statement, StatementType,
};
pub use types::{NativeType, ObjectType, OracleType};
pub use value::{Collection, DataSlot, NativeValue, Object, SqlValue};
