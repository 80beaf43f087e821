//! Alterations: one change to the columns of one table, as data.

use vstd::prelude::*;

use crate::column::{Column, ColumnView};

verus! {

/// One change to the columns of a table.
#[derive(Clone, Debug, PartialEq, Eq)]
pub enum ColumnChange {
    /// Remove the column of this name.
    Drop(String),
    /// Declare this column.
    Add(Column),
}

/// What a [`ColumnChange`] stands for in specifications.
pub enum ColumnChangeView {
    Drop(Seq<char>),
    Add(ColumnView),
}

impl View for ColumnChange {
    type V = ColumnChangeView;

    open spec fn view(&self) -> ColumnChangeView {
        match self {
            ColumnChange::Drop(name) => ColumnChangeView::Drop(name@),
            ColumnChange::Add(column) => ColumnChangeView::Add(column@),
        }
    }
}

/// A request to change the columns of the table of a given name.
#[derive(Clone, Debug, PartialEq, Eq)]
pub struct TableAlteration {
    /// The name of the table to alter.
    pub table: String,
    /// What to change in it.
    pub change: ColumnChange,
}

/// What a [`TableAlteration`] stands for in specifications.
pub struct TableAlterationView {
    pub table: Seq<char>,
    pub change: ColumnChangeView,
}

impl View for TableAlteration {
    type V = TableAlterationView;

    open spec fn view(&self) -> TableAlterationView {
        TableAlterationView { table: self.table@, change: self.change@ }
    }
}

impl TableAlterationView {
    /// The request to remove `column` from `table`.
    pub open spec fn drop_column(table: Seq<char>, column: Seq<char>) -> TableAlterationView {
        TableAlterationView { table, change: ColumnChangeView::Drop(column) }
    }

    /// The request to declare `column` in `table`.
    pub open spec fn add_column(table: Seq<char>, column: ColumnView) -> TableAlterationView {
        TableAlterationView { table, change: ColumnChangeView::Add(column) }
    }
}

impl TableAlteration {
    /// The request to remove `column` from `table`.
    pub fn drop_column(table: &str, column: &str) -> (alteration: TableAlteration)
        ensures
            alteration@ == TableAlterationView::drop_column(table@, column@),
    {
        TableAlteration { table: table.to_owned(), change: ColumnChange::Drop(column.to_owned()) }
    }

    /// The request to declare `column` in `table`.
    pub fn add_column(table: &str, column: Column) -> (alteration: TableAlteration)
        ensures
            alteration@ == TableAlterationView::add_column(table@, column@),
    {
        TableAlteration { table: table.to_owned(), change: ColumnChange::Add(column) }
    }
}

} // verus!
