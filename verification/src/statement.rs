//! Alterations as statements of sea-query, which a schema manager renders
//! for its database and runs.
//!
//! A statement of sea-query keeps what it was given in private fields. This
//! module names what it holds and states, for each builder method that it
//! calls, what the method's source shows of it. Those statements are
//! believed, not proved; what is built from them is proved.

use sea_orm_migration::sea_query;
use vstd::prelude::*;

use crate::alteration::{ColumnChangeView, TableAlterationView};
use crate::column::{ColumnType, ColumnView};

verus! {

/// `sea_query::TableAlterStatement`, opaque to the verifier.
#[verifier::external_type_specification]
#[verifier::external_body]
pub struct ExTableAlterStatement(sea_query::TableAlterStatement);

/// `sea_query::ColumnDef`, opaque to the verifier.
#[verifier::external_type_specification]
#[verifier::external_body]
pub struct ExColumnDef(sea_query::ColumnDef);

/// The name of the table that a statement alters, once one was given.
pub uninterp spec fn statement_table(statement: sea_query::TableAlterStatement) -> Option<
    Seq<char>,
>;

/// The changes that a statement asks for, in the order in which they were
/// put in.
pub uninterp spec fn statement_changes(statement: sea_query::TableAlterStatement) -> Seq<
    ColumnChangeView,
>;

/// The name that a column definition gives its column, which
/// `sea_query::ColumnDef::get_column_name` reads.
pub uninterp spec fn definition_name(definition: sea_query::ColumnDef) -> Seq<char>;

/// The type that a column definition declares, once one was given, which
/// `sea_query::ColumnDef::get_column_type` reads.
pub uninterp spec fn definition_type(definition: sea_query::ColumnDef) -> Option<ColumnType>;

/// Whether a column definition leaves its column free to hold null: none of
/// the constraints that `sea_query::ColumnDef::get_column_spec` reads
/// forbids it.
pub uninterp spec fn definition_nullable(definition: sea_query::ColumnDef) -> bool;

/// Whether a statement asks for exactly this alteration: it names the
/// alteration's table and holds its change and no other.
pub open spec fn describes(
    statement: sea_query::TableAlterStatement,
    alteration: TableAlterationView,
) -> bool {
    &&& statement_table(statement) == Some(alteration.table)
    &&& statement_changes(statement) == seq![alteration.change]
}

/// `sea_query::Table::alter`. Believed: the statement it makes names no
/// table and asks for no change.
#[verifier::external_body]
fn new_statement() -> (statement: sea_query::TableAlterStatement)
    ensures
        statement_table(statement) is None,
        statement_changes(statement) == Seq::<ColumnChangeView>::empty(),
{
    sea_query::Table::alter()
}

/// `sea_query::TableAlterStatement::table`, with the name as a
/// `sea_query::Alias`. Believed: the statement then names that table, and
/// its changes are as before.
#[verifier::external_body]
fn set_table(statement: &mut sea_query::TableAlterStatement, table: &str)
    ensures
        statement_table(*final(statement)) == Some(table@),
        statement_changes(*final(statement)) == statement_changes(*old(statement)),
{
    statement.table(sea_query::Alias::new(table));
}

/// `sea_query::TableAlterStatement::drop_column`, with the name as a
/// `sea_query::Alias`. Believed: the statement has one more change, put
/// last, which drops the column of that name; its table is as before.
#[verifier::external_body]
fn push_drop_column(statement: &mut sea_query::TableAlterStatement, column: &str)
    ensures
        statement_table(*final(statement)) == statement_table(*old(statement)),
        statement_changes(*final(statement)) == statement_changes(*old(statement)).push(
            ColumnChangeView::Drop(column@),
        ),
{
    statement.drop_column(sea_query::Alias::new(column));
}

/// `sea_query::TableAlterStatement::add_column`. Believed: the statement
/// has one more change, put last, which adds a column as the definition
/// declares it; its table is as before.
#[verifier::external_body]
fn push_add_column(statement: &mut sea_query::TableAlterStatement, definition: sea_query::ColumnDef)
    requires
        definition_type(definition) is Some,
    ensures
        statement_table(*final(statement)) == statement_table(*old(statement)),
        statement_changes(*final(statement)) == statement_changes(*old(statement)).push(
            ColumnChangeView::Add(
                ColumnView {
                    name: definition_name(definition),
                    column_type: definition_type(definition)->0,
                    nullable: definition_nullable(definition),
                },
            ),
        ),
{
    statement.add_column(definition);
}

/// `sea_query::ColumnDef::new`, with the name as a `sea_query::Alias`.
/// Believed: the definition bears that name, declares no type yet and
/// carries no constraint.
#[verifier::external_body]
fn new_definition(name: &str) -> (definition: sea_query::ColumnDef)
    ensures
        definition_name(definition) == name@,
        definition_type(definition) is None,
        definition_nullable(definition),
{
    sea_query::ColumnDef::new(sea_query::Alias::new(name))
}

/// `sea_query::ColumnDef::text`. Believed: the definition then declares the
/// text type, and its name and constraints are as before.
#[verifier::external_body]
fn set_text(definition: &mut sea_query::ColumnDef)
    ensures
        definition_name(*final(definition)) == definition_name(*old(definition)),
        definition_type(*final(definition)) == Some(ColumnType::Text),
        definition_nullable(*final(definition)) == definition_nullable(*old(definition)),
{
    definition.text();
}

/// The statement that drops `column` from `table`.
pub fn drop_column_statement(table: &str, column: &str) -> (statement:
    sea_query::TableAlterStatement)
    ensures
        describes(statement, TableAlterationView::drop_column(table@, column@)),
{
    let mut statement = new_statement();
    set_table(&mut statement, table);
    push_drop_column(&mut statement, column);
    statement
}

/// The statement that adds to `table` a text column `column` that admits
/// null.
pub fn add_text_column_statement(table: &str, column: &str) -> (statement:
    sea_query::TableAlterStatement)
    ensures
        describes(
            statement,
            TableAlterationView::add_column(table@, ColumnView::nullable_text(column@)),
        ),
{
    let mut definition = new_definition(column);
    set_text(&mut definition);
    let mut statement = new_statement();
    set_table(&mut statement, table);
    push_add_column(&mut statement, definition);
    statement
}

} // verus!
