//! The migration step: `snapshot` loses its `status` column, and gets one
//! back when the step is reverted.

use sea_orm_migration::sea_query;
use vstd::prelude::*;

use crate::alteration::{TableAlteration, TableAlterationView};
use crate::column::{Column, ColumnView};
use crate::error::DatabaseError;
use crate::schema::{Schema, SchemaView};
use crate::statement::{add_text_column_statement, describes, drop_column_statement};
use crate::value::ValueView;

verus! {

/// The name of the table that the step alters.
pub const TABLE: &'static str = "snapshot";

/// The name of the column that the step drops.
pub const COLUMN: &'static str = "status";

/// The migration step. It holds nothing: what it does is the same each
/// time, and all state is in the schema that it is applied to.
#[derive(Clone, Copy, Debug, Default, PartialEq, Eq)]
pub struct Migration;

impl Migration {
    /// What applying the step asks for: `status` is dropped from `snapshot`.
    pub open spec fn forward() -> TableAlterationView {
        TableAlterationView::drop_column(TABLE@, COLUMN@)
    }

    /// What reverting the step asks for: `snapshot` gets a text column
    /// `status` that admits null.
    pub open spec fn backward() -> TableAlterationView {
        TableAlterationView::add_column(TABLE@, ColumnView::nullable_text(COLUMN@))
    }

    /// The alteration that applies the step.
    pub fn forward_alteration(&self) -> (alteration: TableAlteration)
        ensures
            alteration@ == Self::forward(),
    {
        TableAlteration::drop_column(TABLE, COLUMN)
    }

    /// The alteration that reverts the step.
    pub fn backward_alteration(&self) -> (alteration: TableAlteration)
        ensures
            alteration@ == Self::backward(),
    {
        TableAlteration::add_column(TABLE, Column::nullable_text(COLUMN))
    }

    /// The statement that applies the step to a live database: it alters
    /// `snapshot` and drops `status`, and asks for nothing else.
    pub fn up_statement(&self) -> (statement: sea_query::TableAlterStatement)
        ensures
            describes(statement, Self::forward()),
    {
        drop_column_statement(TABLE, COLUMN)
    }

    /// The statement that reverts the step on a live database: it alters
    /// `snapshot` and adds `status` as text that admits null, and asks for
    /// nothing else.
    pub fn down_statement(&self) -> (statement: sea_query::TableAlterStatement)
        ensures
            describes(statement, Self::backward()),
    {
        add_text_column_statement(TABLE, COLUMN)
    }

    /// Applies the step to a schema held in memory: `snapshot` loses its
    /// column `status`, and the value that each of its rows holds there. The
    /// step is refused, and the schema left as it is, where the schema has
    /// no table `snapshot` or that table has no column `status`.
    pub fn up(&self, manager: &mut Schema) -> (outcome: Result<(), DatabaseError>)
        requires
            old(manager).wf(),
        ensures
            final(manager).wf(),
            outcome is Ok <==> old(manager)@.has_table(TABLE@) && old(manager)@.table(
                TABLE@,
            ).has_column(COLUMN@),
            outcome is Ok ==> final(manager)@ == old(manager)@.with_table_replaced(
                TABLE@,
                old(manager)@.table(TABLE@).without_column(COLUMN@),
            ),
            outcome is Err ==> final(manager)@ == old(manager)@,
            !old(manager)@.has_table(TABLE@) ==> outcome == Err::<(), DatabaseError>(
                DatabaseError::TableNotFound,
            ),
            old(manager)@.has_table(TABLE@) && !old(manager)@.table(TABLE@).has_column(COLUMN@)
                ==> outcome == Err::<(), DatabaseError>(DatabaseError::ColumnNotFound),
            match old(manager)@.altered(Self::forward()) {
                Ok(schema) => outcome is Ok && final(manager)@ == schema,
                Err(reason) => outcome == Err::<(), DatabaseError>(reason)
                    && final(manager)@ == old(manager)@,
            },
    {
        manager.alter_table(self.forward_alteration())
    }

    /// Reverts the step on a schema held in memory: `snapshot` gets a text
    /// column `status` that admits null, declared after its other columns,
    /// and each of its rows holds null there. The step is refused, and the
    /// schema left as it is, where the schema has no table `snapshot` or
    /// that table already has a column `status`.
    pub fn down(&self, manager: &mut Schema) -> (outcome: Result<(), DatabaseError>)
        requires
            old(manager).wf(),
        ensures
            final(manager).wf(),
            outcome is Ok <==> old(manager)@.has_table(TABLE@) && !old(manager)@.table(
                TABLE@,
            ).has_column(COLUMN@),
            outcome is Ok ==> final(manager)@ == old(manager)@.with_table_replaced(
                TABLE@,
                old(manager)@.table(TABLE@).with_column(ColumnView::nullable_text(COLUMN@)),
            ),
            outcome is Err ==> final(manager)@ == old(manager)@,
            !old(manager)@.has_table(TABLE@) ==> outcome == Err::<(), DatabaseError>(
                DatabaseError::TableNotFound,
            ),
            old(manager)@.has_table(TABLE@) && old(manager)@.table(TABLE@).has_column(COLUMN@)
                ==> outcome == Err::<(), DatabaseError>(DatabaseError::ColumnExists),
            match old(manager)@.altered(Self::backward()) {
                Ok(schema) => outcome is Ok && final(manager)@ == schema,
                Err(reason) => outcome == Err::<(), DatabaseError>(reason)
                    && final(manager)@ == old(manager)@,
            },
    {
        manager.alter_table(self.backward_alteration())
    }
}

impl Migration {
    /// Applying the step to a schema whose table `snapshot` has a column
    /// `status` succeeds. Afterwards that table has no such column and is
    /// otherwise as before: it has its other columns with their
    /// declarations, as many rows, and in each row the same value in every
    /// other column. The other columns keep their order, those behind
    /// `status` one place further to the front. Every other table of the
    /// schema is as it was.
    pub proof fn applying_drops_status_only(schema: SchemaView)
        requires
            schema.wf(),
            schema.has_table(TABLE@),
            schema.table(TABLE@).has_column(COLUMN@),
        ensures
            schema.altered(Self::forward()) is Ok,
            ({
                let applied = schema.altered(Self::forward())->Ok_0;
                let before = schema.table(TABLE@);
                let after = applied.table(TABLE@);
                &&& applied.wf()
                &&& applied.alike_but_for(schema, TABLE@)
                &&& after == before.without_column(COLUMN@)
                &&& !after.has_column(COLUMN@)
                &&& after.columns.len() == before.columns.len() - 1
                &&& after.alike_but_for(before, COLUMN@)
                &&& forall|other: Seq<char>|
                    other != COLUMN@ && before.has_column(other) ==> #[trigger] after.position(
                        other,
                    ) == before.position_without(other, COLUMN@)
            }),
    {
        let before = schema.table(TABLE@);
        assert(schema.named_at(TABLE@, schema.position(TABLE@)));
        assert(before.wf());
        before.dropping_keeps_the_rest(COLUMN@);
        schema.replacing_keeps_the_rest(TABLE@, before.without_column(COLUMN@));
    }

    /// Reverting the step on a schema whose table `snapshot` has no column
    /// `status` succeeds. Afterwards that table has a column `status`,
    /// declared after all the others as text that admits null, and every
    /// row holds null in it. The table is otherwise as before: it has its
    /// other columns with their declarations and at their places, as many
    /// rows, and in each row the same value in every other column. Every
    /// other table of the schema is as it was.
    pub proof fn reverting_adds_an_empty_status(schema: SchemaView)
        requires
            schema.wf(),
            schema.has_table(TABLE@),
            !schema.table(TABLE@).has_column(COLUMN@),
        ensures
            schema.altered(Self::backward()) is Ok,
            ({
                let reverted = schema.altered(Self::backward())->Ok_0;
                let before = schema.table(TABLE@);
                let after = reverted.table(TABLE@);
                &&& reverted.wf()
                &&& reverted.alike_but_for(schema, TABLE@)
                &&& after == before.with_column(ColumnView::nullable_text(COLUMN@))
                &&& after.has_column(COLUMN@)
                &&& after.column(COLUMN@) == ColumnView::nullable_text(COLUMN@)
                &&& after.position(COLUMN@) == before.columns.len()
                &&& after.columns.len() == before.columns.len() + 1
                &&& forall|row: int|
                    0 <= row < before.rows.len()
                        ==> #[trigger] after.cell(row, COLUMN@) == ValueView::Null
                &&& after.alike_but_for(before, COLUMN@)
                &&& forall|other: Seq<char>|
                    before.has_column(other)
                        ==> #[trigger] after.position(other) == before.position(other)
            }),
    {
        let before = schema.table(TABLE@);
        let column = ColumnView::nullable_text(COLUMN@);
        assert(schema.named_at(TABLE@, schema.position(TABLE@)));
        assert(before.wf());
        before.adding_keeps_the_rest(column);
        schema.replacing_keeps_the_rest(TABLE@, before.with_column(column));
    }

    /// The step cannot be applied twice in a row. Whatever the first attempt
    /// made of a schema that has a table `snapshot`, a second attempt that
    /// follows it at once is refused for want of the column, and so leaves
    /// the schema as the first attempt left it.
    pub proof fn applying_twice_is_refused(schema: SchemaView)
        requires
            schema.wf(),
            schema.has_table(TABLE@),
        ensures
            ({
                let once = match schema.altered(Self::forward()) {
                    Ok(applied) => applied,
                    Err(_) => schema,
                };
                once.altered(Self::forward()) == Err::<SchemaView, DatabaseError>(
                    DatabaseError::ColumnNotFound,
                )
            }),
    {
        if schema.table(TABLE@).has_column(COLUMN@) {
            Self::applying_drops_status_only(schema);
        }
    }

    /// Applying the step and reverting it at once brings the structure back,
    /// not the data. Both steps succeed. Afterwards `snapshot` has a column
    /// `status` again, declared as text that admits null, which is how it
    /// was declared before if it was declared so; the column now stands
    /// after all the others, and every row holds null in it. The table is
    /// otherwise as before: it has as many columns, its other columns with
    /// their declarations, as many rows, and in each row the same value in
    /// every other column. The other columns keep their order, those that
    /// stood behind `status` one place further to the front. Every other
    /// table of the schema is as it was.
    pub proof fn applying_then_reverting(schema: SchemaView)
        requires
            schema.wf(),
            schema.has_table(TABLE@),
            schema.table(TABLE@).has_column(COLUMN@),
        ensures
            schema.altered(Self::forward()) is Ok,
            schema.altered(Self::forward())->Ok_0.altered(Self::backward()) is Ok,
            ({
                let applied = schema.altered(Self::forward())->Ok_0;
                let restored = applied.altered(Self::backward())->Ok_0;
                let before = schema.table(TABLE@);
                let after = restored.table(TABLE@);
                &&& restored.wf()
                &&& restored.alike_but_for(schema, TABLE@)
                &&& after.has_column(COLUMN@)
                &&& after.column(COLUMN@) == ColumnView::nullable_text(COLUMN@)
                &&& before.column(COLUMN@) == ColumnView::nullable_text(COLUMN@)
                    ==> after.column(COLUMN@) == before.column(COLUMN@)
                &&& after.position(COLUMN@) == after.columns.len() - 1
                &&& after.columns.len() == before.columns.len()
                &&& forall|row: int|
                    0 <= row < before.rows.len()
                        ==> #[trigger] after.cell(row, COLUMN@) == ValueView::Null
                &&& after.alike_but_for(before, COLUMN@)
                &&& forall|other: Seq<char>|
                    other != COLUMN@ && before.has_column(other) ==> #[trigger] after.position(
                        other,
                    ) == before.position_without(other, COLUMN@)
            }),
    {
        Self::applying_drops_status_only(schema);
        let applied = schema.altered(Self::forward())->Ok_0;
        Self::reverting_adds_an_empty_status(applied);
        let before = schema.table(TABLE@);
        let between = applied.table(TABLE@);
        let restored = applied.altered(Self::backward())->Ok_0;
        let after = restored.table(TABLE@);
        assert(restored.alike_but_for(schema, TABLE@)) by {
            assert forall|table: Seq<char>|
                #[trigger] restored.has_table(table) <==> schema.has_table(table) by {
                assert(applied.has_table(table) <==> schema.has_table(table));
            }
            assert forall|table: Seq<char>|
                table != TABLE@ && schema.has_table(table) implies #[trigger] restored.table(table)
                == schema.table(table) by {
                assert(applied.has_table(table));
                assert(applied.table(table) == schema.table(table));
            }
        }
        assert(after.alike_but_for(before, COLUMN@)) by {
            assert forall|column: Seq<char>| column != COLUMN@ implies (#[trigger] after.has_column(
                column,
            ) <==> before.has_column(column)) by {
                assert(between.has_column(column) <==> before.has_column(column));
            }
            assert forall|column: Seq<char>|
                column != COLUMN@ && before.has_column(column) implies #[trigger] after.column(
                column,
            ) == before.column(column) by {
                assert(between.has_column(column));
                assert(between.column(column) == before.column(column));
            }
            assert forall|row: int, column: Seq<char>|
                0 <= row < before.rows.len() && column != COLUMN@ && before.has_column(
                    column,
                ) implies #[trigger] after.cell(row, column) == before.cell(row, column) by {
                assert(between.has_column(column));
                assert(between.cell(row, column) == before.cell(row, column));
                assert(after.cell(row, column) == between.cell(row, column));
            }
        }
        assert forall|other: Seq<char>|
            other != COLUMN@ && before.has_column(other) implies #[trigger] after.position(other)
            == before.position_without(other, COLUMN@) by {
            assert(between.has_column(other));
            assert(after.position(other) == between.position(other));
        }
    }

    /// Reverting the step and applying it at once changes nothing: on a
    /// schema whose table `snapshot` has no column `status` both steps
    /// succeed, and the schema is then exactly as it was.
    pub proof fn reverting_then_applying(schema: SchemaView)
        requires
            schema.wf(),
            schema.has_table(TABLE@),
            !schema.table(TABLE@).has_column(COLUMN@),
        ensures
            schema.altered(Self::backward()) is Ok,
            schema.altered(Self::backward())->Ok_0.altered(Self::forward()) == Ok::<
                SchemaView,
                DatabaseError,
            >(schema),
    {
        Self::reverting_adds_an_empty_status(schema);
        let before = schema.table(TABLE@);
        let reverted = schema.altered(Self::backward())->Ok_0;
        assert(schema.named_at(TABLE@, schema.position(TABLE@)));
        before.adding_then_dropping_changes_nothing(ColumnView::nullable_text(COLUMN@));
        assert(reverted.named_at(TABLE@, schema.position(TABLE@)));
        reverted.position_is_unique(TABLE@, schema.position(TABLE@));
        let applied = reverted.with_table_replaced(TABLE@, before);
        assert(applied.tables =~= schema.tables);
    }
}

} // verus!
