//! The error conditions that value-cell and statement operations report.

use vstd::prelude::*;

verus! {

/// One failure condition of a value-cell or statement operation.
///
/// Every fallible operation of this crate returns exactly one of these;
/// there is no internal retry or recovery.
#[derive(Debug, Clone, PartialEq)]
pub enum Error {
    /// A typed read was attempted on a cell whose value is null.
    NullValue,
    /// Text could not be parsed into the requested value; carries the text.
    ParseError(String),
    /// A numeric narrowing left the destination's range; carries the source
    /// value rendered as text and the destination type's name.
    Overflow(String, String),
    /// The conversion between the cell's type and the host type is not
    /// permitted; carries both type names.
    InvalidTypeConversion(String, String),
    /// A 1-based bind position outside `1..=bind_count`.
    InvalidBindIndex(usize),
    /// A bind name that resolves to no slot.
    InvalidBindName(String),
    /// A 0-based column position outside `0..column_count`.
    InvalidColumnIndex(usize),
    /// A column name that matches no column.
    InvalidColumnName(String),
    /// A typed access on a cell with no established logical type.
    UninitializedBindValue,
    /// Row fetch exhaustion; an iteration terminator, not a fault.
    NoMoreData,
    /// A logical type the catalog does not support; carries the type's name.
    NotSupported(String),
    /// A misuse of the engine itself, such as fetching when no row was
    /// delivered although more were announced.
    InternalError(String),
}

} // verus!
