//! Why a schema refuses a request.

use vstd::prelude::*;

verus! {

/// The reason for which a request on a [`Schema`](crate::Schema) or a
/// [`Table`](crate::Table) was refused. A refused request changes nothing.
#[derive(Clone, Copy, Debug, PartialEq, Eq, Structural)]
pub enum DatabaseError {
    /// The schema has no table of the name given.
    TableNotFound,
    /// The schema already has a table of that name.
    TableExists,
    /// The table has no column of the name given.
    ColumnNotFound,
    /// The table already has a column of that name.
    ColumnExists,
    /// A row does not hold one value for each column of the table.
    RowWidth,
    /// A value does not fit the column that would hold it: it is not of the
    /// column's type, or it is null and the column does not admit null.
    ValueMismatch,
}

} // verus!
