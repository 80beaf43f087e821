//! A table: named columns, and rows that hold one fitting value for each
//! column.

use vstd::prelude::*;

use crate::alteration::{ColumnChange, ColumnChangeView};
use crate::column::{Column, ColumnView};
use crate::error::DatabaseError;
use crate::value::{Value, ValueView};

verus! {

/// The declarations that a sequence of columns stands for.
pub open spec fn columns_view(columns: Seq<Column>) -> Seq<ColumnView> {
    columns.map_values(|column: Column| column@)
}

/// The values that a row stands for.
pub open spec fn row_view(row: Seq<Value>) -> Seq<ValueView> {
    row.map_values(|value: Value| value@)
}

/// The rows that a sequence of stored rows stands for.
pub open spec fn rows_view(rows: Seq<Vec<Value>>) -> Seq<Seq<ValueView>> {
    rows.map_values(|row: Vec<Value>| row_view(row@))
}

/// No two of the columns share a name.
pub open spec fn distinct_names(columns: Seq<ColumnView>) -> bool {
    forall|i: int, j: int|
        #![trigger columns[i], columns[j]]
        0 <= i < j < columns.len() ==> columns[i].name != columns[j].name
}

/// What a [`Table`] stands for in specifications: its name, its columns in
/// the order of their declaration, and its rows in the order of their
/// insertion, each row holding its values in the order of the columns.
pub struct TableView {
    pub name: Seq<char>,
    pub columns: Seq<ColumnView>,
    pub rows: Seq<Seq<ValueView>>,
}

impl TableView {
    /// Whether the row has the table's width, that is one value for each
    /// column.
    pub open spec fn as_wide_as(self, row: Seq<ValueView>) -> bool {
        row.len() == self.columns.len()
    }

    /// Whether the table can hold the row: the row has the table's width,
    /// and each value fits the column at its place.
    pub open spec fn admits(self, row: Seq<ValueView>) -> bool {
        &&& self.as_wide_as(row)
        &&& forall|c: int| 0 <= c < row.len() ==> (#[trigger] row[c]).fits(self.columns[c])
    }

    /// Column names are unique, and the table can hold each of its rows.
    pub open spec fn wf(self) -> bool {
        &&& distinct_names(self.columns)
        &&& forall|r: int| 0 <= r < self.rows.len() ==> self.admits(#[trigger] self.rows[r])
    }

    /// Whether the column at index `i` exists and bears the name.
    pub open spec fn named_at(self, name: Seq<char>, i: int) -> bool {
        0 <= i < self.columns.len() && self.columns[i].name == name
    }

    /// Whether the table has a column of that name.
    pub open spec fn has_column(self, name: Seq<char>) -> bool {
        exists|i: int| self.named_at(name, i)
    }

    /// The index of the column of that name, where the table has one.
    pub open spec fn position(self, name: Seq<char>) -> int {
        choose|i: int| self.named_at(name, i)
    }

    /// The declaration of the column of that name.
    pub open spec fn column(self, name: Seq<char>) -> ColumnView {
        self.columns[self.position(name)]
    }

    /// What row `row` holds in the column of that name.
    pub open spec fn cell(self, row: int, name: Seq<char>) -> ValueView {
        self.rows[row][self.position(name)]
    }

    /// The table without the column of that name: the column's declaration
    /// is gone, and so is its value in every row.
    pub open spec fn without_column(self, name: Seq<char>) -> TableView {
        let at = self.position(name);
        TableView {
            name: self.name,
            columns: self.columns.remove(at),
            rows: self.rows.map_values(|row: Seq<ValueView>| row.remove(at)),
        }
    }

    /// The table with one more column, declared last, in which every row
    /// holds null.
    pub open spec fn with_column(self, column: ColumnView) -> TableView {
        TableView {
            name: self.name,
            columns: self.columns.push(column),
            rows: self.rows.map_values(|row: Seq<ValueView>| row.push(ValueView::Null)),
        }
    }

    /// The table with one more row, inserted last.
    pub open spec fn with_row(self, row: Seq<ValueView>) -> TableView {
        TableView { name: self.name, columns: self.columns, rows: self.rows.push(row) }
    }

    /// Whether a column declared so can be added: the table has none of
    /// that name, and the null that each row would hold in it fits.
    pub open spec fn can_add(self, column: ColumnView) -> bool {
        !self.has_column(column.name) && (column.nullable || self.rows.len() == 0)
    }

    /// What a change makes of the table, or why the table refuses it. A
    /// column can be dropped only where the table has it. A column can be
    /// added only where the table has none of its name, and, as the rows get
    /// null in it, only if it admits null or the table has no rows.
    pub open spec fn altered(self, change: ColumnChangeView) -> Result<TableView, DatabaseError> {
        match change {
            ColumnChangeView::Drop(name) => if self.has_column(name) {
                Ok(self.without_column(name))
            } else {
                Err(DatabaseError::ColumnNotFound)
            },
            ColumnChangeView::Add(column) => if self.has_column(column.name) {
                Err(DatabaseError::ColumnExists)
            } else if !column.nullable && self.rows.len() > 0 {
                Err(DatabaseError::ValueMismatch)
            } else {
                Ok(self.with_column(column))
            },
        }
    }

    /// What inserting a row makes of the table, or why the table refuses
    /// the row.
    pub open spec fn inserted(self, row: Seq<ValueView>) -> Result<TableView, DatabaseError> {
        if !self.as_wide_as(row) {
            Err(DatabaseError::RowWidth)
        } else if !self.admits(row) {
            Err(DatabaseError::ValueMismatch)
        } else {
            Ok(self.with_row(row))
        }
    }

    /// Whether the two tables are alike but for the column of that name:
    /// they bear the same name and have as many rows, and a column of
    /// another name that one of them has, the other has too, with the same
    /// declaration and with the same value in every row.
    pub open spec fn alike_but_for(self, other: TableView, name: Seq<char>) -> bool {
        &&& self.name == other.name
        &&& self.rows.len() == other.rows.len()
        &&& forall|column: Seq<char>|
            column != name ==> (#[trigger] self.has_column(column) <==> other.has_column(column))
        &&& forall|column: Seq<char>|
            column != name && other.has_column(column) ==> #[trigger] self.column(column)
                == other.column(column)
        &&& forall|row: int, column: Seq<char>|
            0 <= row < other.rows.len() && column != name && other.has_column(column)
                ==> #[trigger] self.cell(row, column) == other.cell(row, column)
    }

    /// The index at which the column `name` stands once the column
    /// `dropped` is gone: one place further to the front if `dropped` stood
    /// before it, else the same place.
    pub open spec fn position_without(self, name: Seq<char>, dropped: Seq<char>) -> int {
        if self.position(name) < self.position(dropped) {
            self.position(name)
        } else {
            self.position(name) - 1
        }
    }

    /// In a well-formed table a name is found at one index only.
    pub proof fn position_is_unique(self, name: Seq<char>, i: int)
        requires
            self.wf(),
            self.named_at(name, i),
        ensures
            self.has_column(name),
            self.position(name) == i,
    {
        let at = self.position(name);
        assert(self.named_at(name, at));
        if at < i {
            assert(self.columns[at].name != self.columns[i].name);
        } else if i < at {
            assert(self.columns[i].name != self.columns[at].name);
        }
    }

    /// Removing a column keeps a table well-formed.
    pub proof fn without_column_is_wf(self, name: Seq<char>)
        requires
            self.wf(),
            self.has_column(name),
        ensures
            self.without_column(name).wf(),
    {
        let at = self.position(name);
        let after = self.without_column(name);
        assert(self.named_at(name, at));
        assert forall|i: int, j: int| 0 <= i < j < after.columns.len() implies after.columns[i].name
            != after.columns[j].name by {
            let a = if i < at { i } else { i + 1 };
            let b = if j < at { j } else { j + 1 };
            assert(after.columns[i] == self.columns[a]);
            assert(after.columns[j] == self.columns[b]);
        }
        assert forall|r: int| 0 <= r < after.rows.len() implies after.admits(
            #[trigger] after.rows[r],
        ) by {
            assert(self.admits(self.rows[r]));
            assert forall|c: int|
                0 <= c < after.rows[r].len() implies (#[trigger] after.rows[r][c]).fits(
                after.columns[c],
            ) by {
                let was = if c < at { c } else { c + 1 };
                assert(after.rows[r][c] == self.rows[r][was]);
                assert(self.rows[r][was].fits(self.columns[was]));
            }
        }
    }

    /// Adding a column that can be added keeps a table well-formed.
    pub proof fn with_column_is_wf(self, column: ColumnView)
        requires
            self.wf(),
            self.can_add(column),
        ensures
            self.with_column(column).wf(),
    {
        let after = self.with_column(column);
        assert forall|i: int, j: int| 0 <= i < j < after.columns.len() implies after.columns[i].name
            != after.columns[j].name by {
            if j == self.columns.len() {
                assert(!self.named_at(column.name, i));
            } else {
                assert(self.columns[i].name != self.columns[j].name);
            }
        }
        assert forall|r: int| 0 <= r < after.rows.len() implies after.admits(
            #[trigger] after.rows[r],
        ) by {
            assert(self.admits(self.rows[r]));
            assert forall|c: int|
                0 <= c < after.rows[r].len() implies (#[trigger] after.rows[r][c]).fits(
                after.columns[c],
            ) by {
                if c < self.columns.len() {
                    assert(self.rows[r][c].fits(self.columns[c]));
                }
            }
        }
    }

    /// Inserting a row that the table admits keeps it well-formed.
    pub proof fn with_row_is_wf(self, row: Seq<ValueView>)
        requires
            self.wf(),
            self.admits(row),
        ensures
            self.with_row(row).wf(),
    {
        let after = self.with_row(row);
        assert forall|r: int| 0 <= r < after.rows.len() implies after.admits(
            #[trigger] after.rows[r],
        ) by {
            if r < self.rows.len() {
                assert(self.admits(self.rows[r]));
            }
        }
    }

    /// Where a column other than the dropped one stood, and where it stands
    /// afterwards: one place further to the front if the dropped column
    /// stood before it, else the same place.
    pub proof fn position_after_dropping(self, dropped: Seq<char>, other: Seq<char>)
        requires
            self.wf(),
            self.has_column(dropped),
            self.has_column(other),
            other != dropped,
        ensures
            self.without_column(dropped).has_column(other),
            self.position(other) != self.position(dropped),
            self.without_column(dropped).position(other) == self.position_without(other, dropped),
    {
        let at = self.position(dropped);
        let was = self.position(other);
        let after = self.without_column(dropped);
        assert(self.named_at(dropped, at));
        assert(self.named_at(other, was));
        let now = if was < at { was } else { was - 1 };
        assert(after.columns[now] == self.columns[was]);
        assert(after.named_at(other, now));
        self.without_column_is_wf(dropped);
        after.position_is_unique(other, now);
    }

    /// Dropping a column removes it and nothing else: the table no longer
    /// has the column, and is otherwise as before. The columns that stood
    /// behind the dropped one move up by one place, so the order of the rest
    /// is kept.
    pub proof fn dropping_keeps_the_rest(self, dropped: Seq<char>)
        requires
            self.wf(),
            self.has_column(dropped),
        ensures
            ({
                let after = self.without_column(dropped);
                &&& after.wf()
                &&& !after.has_column(dropped)
                &&& after.columns.len() == self.columns.len() - 1
                &&& after.alike_but_for(self, dropped)
                &&& forall|other: Seq<char>|
                    other != dropped && self.has_column(other) ==> #[trigger] after.position(other)
                        == self.position_without(other, dropped)
            }),
    {
        let at = self.position(dropped);
        let after = self.without_column(dropped);
        assert(self.named_at(dropped, at));
        self.without_column_is_wf(dropped);
        assert(!after.has_column(dropped)) by {
            if after.has_column(dropped) {
                let now = after.position(dropped);
                assert(after.named_at(dropped, now));
                let was = if now < at { now } else { now + 1 };
                assert(self.named_at(dropped, was));
                self.position_is_unique(dropped, was);
            }
        }
        assert forall|other: Seq<char>| other != dropped implies (#[trigger] after.has_column(other)
            <==> self.has_column(other)) by {
            if self.has_column(other) {
                self.position_after_dropping(dropped, other);
            }
            if after.has_column(other) {
                let now = after.position(other);
                assert(after.named_at(other, now));
                let was = if now < at { now } else { now + 1 };
                assert(self.named_at(other, was));
            }
        }
        assert forall|other: Seq<char>|
            other != dropped && self.has_column(other) implies #[trigger] after.column(other)
            == self.column(other) by {
            self.position_after_dropping(dropped, other);
            assert(self.named_at(other, self.position(other)));
        }
        assert forall|other: Seq<char>|
            other != dropped && self.has_column(other) implies #[trigger] after.position(other)
            == self.position_without(other, dropped) by {
            self.position_after_dropping(dropped, other);
        }
        assert forall|row: int, other: Seq<char>|
            0 <= row < self.rows.len() && other != dropped && self.has_column(
                other,
            ) implies #[trigger] after.cell(row, other) == self.cell(row, other) by {
            self.position_after_dropping(dropped, other);
            assert(self.named_at(other, self.position(other)));
            assert(self.admits(self.rows[row]));
        }
    }

    /// Adding a column adds it and nothing else: the table has the column
    /// as declared, after all the others, with null in every row, and is
    /// otherwise as before, each of the other columns at its place.
    pub proof fn adding_keeps_the_rest(self, column: ColumnView)
        requires
            self.wf(),
            self.can_add(column),
        ensures
            ({
                let after = self.with_column(column);
                &&& after.wf()
                &&& after.has_column(column.name)
                &&& after.column(column.name) == column
                &&& after.position(column.name) == self.columns.len()
                &&& after.columns.len() == self.columns.len() + 1
                &&& forall|row: int|
                    0 <= row < self.rows.len() ==> #[trigger] after.cell(row, column.name)
                        == ValueView::Null
                &&& after.alike_but_for(self, column.name)
                &&& forall|other: Seq<char>|
                    self.has_column(other)
                        ==> #[trigger] after.position(other) == self.position(other)
            }),
    {
        let after = self.with_column(column);
        let last = self.columns.len() as int;
        self.with_column_is_wf(column);
        assert(after.named_at(column.name, last));
        after.position_is_unique(column.name, last);
        assert forall|row: int| 0 <= row < self.rows.len() implies #[trigger] after.cell(
            row,
            column.name,
        ) == ValueView::Null by {
            assert(self.admits(self.rows[row]));
        }
        assert forall|other: Seq<char>|
            self.has_column(other) implies #[trigger] after.position(other)
            == self.position(other) by {
            let was = self.position(other);
            assert(self.named_at(other, was));
            assert(after.named_at(other, was));
            after.position_is_unique(other, was);
        }
        assert forall|other: Seq<char>|
            other != column.name implies (#[trigger] after.has_column(other)
            <==> self.has_column(other)) by {
            if self.has_column(other) {
                assert(after.position(other) == self.position(other));
                assert(self.named_at(other, self.position(other)));
                assert(after.named_at(other, self.position(other)));
            }
            if after.has_column(other) {
                let now = after.position(other);
                assert(after.named_at(other, now));
                assert(self.named_at(other, now));
            }
        }
        assert forall|other: Seq<char>|
            self.has_column(other) implies #[trigger] after.column(other)
            == self.column(other) by {
            assert(after.position(other) == self.position(other));
            assert(self.named_at(other, self.position(other)));
        }
        assert forall|row: int, other: Seq<char>|
            0 <= row < self.rows.len() && self.has_column(other) implies #[trigger] after.cell(
            row,
            other,
        ) == self.cell(row, other) by {
            assert(after.position(other) == self.position(other));
            assert(self.named_at(other, self.position(other)));
            assert(self.admits(self.rows[row]));
        }
    }

    /// Dropping a column that was just added leaves the table exactly as it
    /// was before the column was added.
    pub proof fn adding_then_dropping_changes_nothing(self, column: ColumnView)
        requires
            self.wf(),
            self.can_add(column),
        ensures
            self.with_column(column).has_column(column.name),
            self.with_column(column).without_column(column.name) == self,
    {
        let between = self.with_column(column);
        let after = between.without_column(column.name);
        self.adding_keeps_the_rest(column);
        assert(after.columns =~= self.columns);
        assert forall|r: int| 0 <= r < self.rows.len() implies after.rows[r] == self.rows[r] by {
            assert(self.admits(self.rows[r]));
            assert(after.rows[r] =~= self.rows[r]);
        }
        assert(after.rows =~= self.rows);
    }
}

/// A table held in memory.
///
/// Its columns bear distinct names, and each of its rows holds one value for
/// each column, which fits the column's declaration.
#[derive(Clone, Debug, PartialEq, Eq)]
pub struct Table {
    name: String,
    columns: Vec<Column>,
    rows: Vec<Vec<Value>>,
}

impl View for Table {
    type V = TableView;

    closed spec fn view(&self) -> TableView {
        TableView {
            name: self.name@,
            columns: columns_view(self.columns@),
            rows: rows_view(self.rows@),
        }
    }
}

impl Table {
    /// The table's invariant: see [`TableView::wf`].
    pub open spec fn wf(&self) -> bool {
        self@.wf()
    }

    /// A table of that name with no column and no row.
    pub fn new(name: &str) -> (table: Table)
        ensures
            table.wf(),
            table@ == (TableView { name: name@, columns: Seq::empty(), rows: Seq::empty() }),
    {
        let table = Table { name: name.to_owned(), columns: Vec::new(), rows: Vec::new() };
        assert(table@.columns =~= Seq::empty());
        assert(table@.rows =~= Seq::empty());
        table
    }

    /// The table's name.
    pub fn name(&self) -> (name: &str)
        ensures
            name@ == self@.name,
    {
        self.name.as_str()
    }

    /// Whether the table bears that name.
    pub(crate) fn is_named(&self, name: &String) -> (yes: bool)
        ensures
            yes == (self@.name == name@),
    {
        self.name == *name
    }

    /// The table's columns, in the order of their declaration.
    pub fn columns(&self) -> (columns: &Vec<Column>)
        ensures
            columns_view(columns@) == self@.columns,
    {
        &self.columns
    }

    /// The table's rows, in the order of their insertion.
    pub fn rows(&self) -> (rows: &Vec<Vec<Value>>)
        ensures
            rows_view(rows@) == self@.rows,
    {
        &self.rows
    }

    /// The index of the column of that name, if the table has one.
    pub fn column_index(&self, name: &str) -> (found: Option<usize>)
        requires
            self.wf(),
        ensures
            match found {
                Some(i) => self@.has_column(name@) && i == self@.position(name@),
                None => !self@.has_column(name@),
            },
    {
        let wanted = name.to_owned();
        let mut i: usize = 0;
        while i < self.columns.len()
            invariant
                self.wf(),
                i <= self.columns.len(),
                wanted@ == name@,
                forall|k: int| 0 <= k < i ==> !self@.named_at(name@, k),
            decreases self.columns.len() - i,
        {
            if self.columns[i].name == wanted {
                proof {
                    self@.position_is_unique(name@, i as int);
                }
                return Some(i);
            }
            i += 1;
        }
        None
    }

    /// Whether each value of the row fits the column at its place.
    fn holds(&self, row: &Vec<Value>) -> (yes: bool)
        requires
            self@.as_wide_as(row_view(row@)),
        ensures
            yes == self@.admits(row_view(row@)),
    {
        let mut c: usize = 0;
        while c < row.len()
            invariant
                c <= row.len(),
                row.len() == self.columns.len(),
                forall|k: int| 0 <= k < c ==> (#[trigger] row_view(row@)[k]).fits(self@.columns[k]),
            decreases row.len() - c,
        {
            if !row[c].fits(&self.columns[c]) {
                assert(!row_view(row@)[c as int].fits(self@.columns[c as int]));
                return false;
            }
            c += 1;
        }
        true
    }

    /// Inserts a row after those that the table has. The row must hold one
    /// value for each column, in the order of the columns, and each value
    /// must fit its column. A row that does not is refused, and the table is
    /// left as it is.
    pub fn insert(&mut self, row: Vec<Value>) -> (outcome: Result<(), DatabaseError>)
        requires
            old(self).wf(),
        ensures
            final(self).wf(),
            match old(self)@.inserted(row_view(row@)) {
                Ok(table) => outcome is Ok && final(self)@ == table,
                Err(reason) => outcome == Err::<(), DatabaseError>(reason)
                    && final(self)@ == old(self)@,
            },
    {
        if row.len() != self.columns.len() {
            return Err(DatabaseError::RowWidth);
        }
        if !self.holds(&row) {
            return Err(DatabaseError::ValueMismatch);
        }
        let ghost inserted = row_view(row@);
        self.rows.push(row);
        proof {
            let after = old(self)@.with_row(inserted);
            assert(self@.rows =~= after.rows);
            old(self)@.with_row_is_wf(inserted);
        }
        Ok(())
    }

    /// Removes the column of that name, and with it the value that each row
    /// holds there. The other columns keep their order and every row keeps
    /// its other values. A table without such a column is left as it is.
    pub fn drop_column(&mut self, name: &str) -> (outcome: Result<(), DatabaseError>)
        requires
            old(self).wf(),
        ensures
            final(self).wf(),
            match old(self)@.altered(ColumnChangeView::Drop(name@)) {
                Ok(table) => outcome is Ok && final(self)@ == table,
                Err(reason) => outcome == Err::<(), DatabaseError>(reason)
                    && final(self)@ == old(self)@,
            },
    {
        let at = match self.column_index(name) {
            Some(at) => at,
            None => {
                return Err(DatabaseError::ColumnNotFound);
            },
        };
        self.columns.remove(at);
        let mut r: usize = 0;
        while r < self.rows.len()
            invariant
                r <= self.rows.len(),
                self.name == old(self).name,
                self.columns@ == old(self).columns@.remove(at as int),
                at < old(self).columns.len(),
                old(self).wf(),
                self.rows.len() == old(self).rows.len(),
                forall|k: int|
                    0 <= k < r ==> #[trigger] self.rows[k]@ == old(self).rows[k]@.remove(at as int),
                forall|k: int|
                    r <= k < self.rows.len() ==> #[trigger] self.rows[k] == old(self).rows[k],
            decreases self.rows.len() - r,
        {
            assert(old(self)@.admits(old(self)@.rows[r as int]));
            self.rows[r].remove(at);
            r += 1;
        }
        proof {
            let before = old(self)@;
            let after = before.without_column(name@);
            assert(self@.columns =~= after.columns);
            assert forall|k: int|
                0 <= k < self.rows.len() implies self@.rows[k] == after.rows[k] by {
                assert(before.admits(before.rows[k]));
                assert(self.rows[k]@ == old(self).rows[k]@.remove(at as int));
                assert(row_view(self.rows[k]@) =~= row_view(old(self).rows[k]@).remove(at as int));
            }
            assert(self@.rows =~= after.rows);
            before.without_column_is_wf(name@);
        }
        Ok(())
    }

    /// Declares one more column, after those that the table has, and gives
    /// every row null in it. The column is refused, and the table left as it
    /// is, where the table already has a column of that name, or where it
    /// has rows and the column does not admit null.
    pub fn add_column(&mut self, column: Column) -> (outcome: Result<(), DatabaseError>)
        requires
            old(self).wf(),
        ensures
            final(self).wf(),
            match old(self)@.altered(ColumnChangeView::Add(column@)) {
                Ok(table) => outcome is Ok && final(self)@ == table,
                Err(reason) => outcome == Err::<(), DatabaseError>(reason)
                    && final(self)@ == old(self)@,
            },
    {
        if self.column_index(column.name.as_str()).is_some() {
            return Err(DatabaseError::ColumnExists);
        }
        if !column.nullable && self.rows.len() > 0 {
            return Err(DatabaseError::ValueMismatch);
        }
        let ghost added = column@;
        self.columns.push(column);
        let mut r: usize = 0;
        while r < self.rows.len()
            invariant
                r <= self.rows.len(),
                self.name == old(self).name,
                self.columns@.len() == old(self).columns@.len() + 1,
                columns_view(self.columns@) == columns_view(old(self).columns@).push(added),
                self.rows.len() == old(self).rows.len(),
                forall|k: int|
                    0 <= k < r ==> #[trigger] self.rows[k]@ == old(self).rows[k]@.push(Value::Null),
                forall|k: int|
                    r <= k < self.rows.len() ==> #[trigger] self.rows[k] == old(self).rows[k],
            decreases self.rows.len() - r,
        {
            self.rows[r].push(Value::Null);
            r += 1;
        }
        proof {
            let before = old(self)@;
            let after = before.with_column(added);
            assert forall|k: int|
                0 <= k < self.rows.len() implies self@.rows[k] == after.rows[k] by {
                assert(self.rows[k]@ == old(self).rows[k]@.push(Value::Null));
                assert(row_view(self.rows[k]@) =~= row_view(old(self).rows[k]@).push(
                    ValueView::Null,
                ));
            }
            assert(self@.rows =~= after.rows);
            before.with_column_is_wf(added);
        }
        Ok(())
    }

    /// Carries out one change to the columns. A refused change leaves the
    /// table as it is.
    pub fn alter(&mut self, change: ColumnChange) -> (outcome: Result<(), DatabaseError>)
        requires
            old(self).wf(),
        ensures
            final(self).wf(),
            match old(self)@.altered(change@) {
                Ok(table) => outcome is Ok && final(self)@ == table,
                Err(reason) => outcome == Err::<(), DatabaseError>(reason)
                    && final(self)@ == old(self)@,
            },
    {
        match change {
            ColumnChange::Drop(name) => self.drop_column(name.as_str()),
            ColumnChange::Add(column) => self.add_column(column),
        }
    }
}

} // verus!
