//! Column declarations.

use vstd::prelude::*;

verus! {

/// The declared type of a column.
#[derive(Clone, Copy, Debug, PartialEq, Eq, Structural)]
pub enum ColumnType {
    /// Whole numbers.
    Integer,
    /// Free-form text of any length.
    Text,
    /// A point in time.
    Timestamp,
}

/// A column as a table declares it.
#[derive(Clone, Debug, PartialEq, Eq)]
pub struct Column {
    /// The column's name, unique within its table.
    pub name: String,
    /// The type of the values it is declared to hold.
    pub column_type: ColumnType,
    /// Whether the column admits null.
    pub nullable: bool,
}

/// What a [`Column`] stands for in specifications.
pub struct ColumnView {
    pub name: Seq<char>,
    pub column_type: ColumnType,
    pub nullable: bool,
}

impl View for Column {
    type V = ColumnView;

    open spec fn view(&self) -> ColumnView {
        ColumnView { name: self.name@, column_type: self.column_type, nullable: self.nullable }
    }
}

impl ColumnView {
    /// A nullable text column of the given name.
    pub open spec fn nullable_text(name: Seq<char>) -> ColumnView {
        ColumnView { name, column_type: ColumnType::Text, nullable: true }
    }
}

impl Column {
    /// Declares a column.
    pub fn new(name: &str, column_type: ColumnType, nullable: bool) -> (column: Column)
        ensures
            column@ == (ColumnView { name: name@, column_type, nullable }),
    {
        Column { name: name.to_owned(), column_type, nullable }
    }

    /// Declares a text column that admits null.
    pub fn nullable_text(name: &str) -> (column: Column)
        ensures
            column@ == ColumnView::nullable_text(name@),
    {
        Column::new(name, ColumnType::Text, true)
    }
}

} // verus!
