//! The values that a table's cells hold.

use vstd::prelude::*;

use crate::column::{Column, ColumnType, ColumnView};

verus! {

/// The content of one cell.
#[derive(Clone, Debug, PartialEq, Eq)]
pub enum Value {
    /// No value.
    Null,
    /// A whole number.
    Integer(i64),
    /// A piece of text.
    Text(String),
    /// A point in time, counted from an epoch.
    Timestamp(i64),
}

/// What a [`Value`] stands for in specifications.
pub enum ValueView {
    Null,
    Integer(i64),
    Text(Seq<char>),
    Timestamp(i64),
}

impl View for Value {
    type V = ValueView;

    open spec fn view(&self) -> ValueView {
        match self {
            Value::Null => ValueView::Null,
            Value::Integer(n) => ValueView::Integer(*n),
            Value::Text(text) => ValueView::Text(text@),
            Value::Timestamp(at) => ValueView::Timestamp(*at),
        }
    }
}

impl ValueView {
    /// Whether a column declared so may hold the value: null fits where the
    /// column admits null, any other value where it is of the column's type.
    pub open spec fn fits(self, column: ColumnView) -> bool {
        match self {
            ValueView::Null => column.nullable,
            ValueView::Integer(_) => column.column_type == ColumnType::Integer,
            ValueView::Text(_) => column.column_type == ColumnType::Text,
            ValueView::Timestamp(_) => column.column_type == ColumnType::Timestamp,
        }
    }
}

impl Value {
    /// Whether the column may hold this value.
    pub fn fits(&self, column: &Column) -> (yes: bool)
        ensures
            yes == self@.fits(column@),
    {
        match self {
            Value::Null => column.nullable,
            Value::Integer(_) => column.column_type == ColumnType::Integer,
            Value::Text(_) => column.column_type == ColumnType::Text,
            Value::Timestamp(_) => column.column_type == ColumnType::Timestamp,
        }
    }
}

} // verus!
