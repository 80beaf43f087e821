//! A schema: tables under distinct names.

use vstd::prelude::*;

use crate::alteration::{TableAlteration, TableAlterationView};
use crate::error::DatabaseError;
use crate::table::{Table, TableView};

verus! {

/// The tables that a sequence of stored tables stands for.
pub open spec fn tables_view(tables: Seq<Table>) -> Seq<TableView> {
    tables.map_values(|table: Table| table@)
}

/// What a [`Schema`] stands for in specifications: its tables, in the order
/// of their creation.
pub struct SchemaView {
    pub tables: Seq<TableView>,
}

impl SchemaView {
    /// Every table is well-formed, and no two tables share a name.
    pub open spec fn wf(self) -> bool {
        &&& forall|i: int| 0 <= i < self.tables.len() ==> (#[trigger] self.tables[i]).wf()
        &&& forall|i: int, j: int|
            #![trigger self.tables[i], self.tables[j]]
            0 <= i < j < self.tables.len() ==> self.tables[i].name != self.tables[j].name
    }

    /// Whether the table at index `i` exists and bears the name.
    pub open spec fn named_at(self, name: Seq<char>, i: int) -> bool {
        0 <= i < self.tables.len() && self.tables[i].name == name
    }

    /// Whether the schema has a table of that name.
    pub open spec fn has_table(self, name: Seq<char>) -> bool {
        exists|i: int| self.named_at(name, i)
    }

    /// The index of the table of that name, where the schema has one.
    pub open spec fn position(self, name: Seq<char>) -> int {
        choose|i: int| self.named_at(name, i)
    }

    /// The table of that name.
    pub open spec fn table(self, name: Seq<char>) -> TableView {
        self.tables[self.position(name)]
    }

    /// The schema with one more table, created last.
    pub open spec fn with_table(self, table: TableView) -> SchemaView {
        SchemaView { tables: self.tables.push(table) }
    }

    /// The schema in which `table` has taken the place of the table of that
    /// name.
    pub open spec fn with_table_replaced(self, name: Seq<char>, table: TableView) -> SchemaView {
        SchemaView { tables: self.tables.update(self.position(name), table) }
    }

    /// What an alteration makes of the schema, or why the schema refuses
    /// it. The table named must exist and must accept the change; it is then
    /// the only table that differs.
    pub open spec fn altered(self, alteration: TableAlterationView) -> Result<
        SchemaView,
        DatabaseError,
    > {
        if !self.has_table(alteration.table) {
            Err(DatabaseError::TableNotFound)
        } else {
            match self.table(alteration.table).altered(alteration.change) {
                Ok(table) => Ok(self.with_table_replaced(alteration.table, table)),
                Err(reason) => Err(reason),
            }
        }
    }

    /// Whether the two schemas are alike but for the table of that name:
    /// they have as many tables, and a table that one of them has, the other
    /// has too, and has it the same unless it bears the name.
    pub open spec fn alike_but_for(self, other: SchemaView, name: Seq<char>) -> bool {
        &&& self.tables.len() == other.tables.len()
        &&& forall|table: Seq<char>| #[trigger] self.has_table(table) <==> other.has_table(table)
        &&& forall|table: Seq<char>|
            table != name && other.has_table(table) ==> #[trigger] self.table(table) == other.table(
                table,
            )
    }

    /// Putting a well-formed table of the same name in a table's place
    /// keeps a schema well-formed.
    pub proof fn replacement_is_wf(self, name: Seq<char>, table: TableView)
        requires
            self.wf(),
            self.has_table(name),
            table.wf(),
            table.name == name,
        ensures
            self.with_table_replaced(name, table).wf(),
    {
        let at = self.position(name);
        let after = self.with_table_replaced(name, table);
        assert(self.named_at(name, at));
        assert forall|i: int| 0 <= i < after.tables.len() implies (#[trigger] after.tables[i]).wf(
        ) by {
            if i != at {
                assert(self.tables[i].wf());
            }
        }
        assert forall|i: int, j: int| 0 <= i < j < after.tables.len() implies after.tables[i].name
            != after.tables[j].name by {
            assert(self.tables[i].name != self.tables[j].name);
        }
    }

    /// Replacing a table changes that table and nothing else: the schema
    /// finds the new table under the name, and is otherwise as before.
    pub proof fn replacing_keeps_the_rest(self, name: Seq<char>, table: TableView)
        requires
            self.wf(),
            self.has_table(name),
            table.wf(),
            table.name == name,
        ensures
            ({
                let after = self.with_table_replaced(name, table);
                &&& after.wf()
                &&& after.has_table(name)
                &&& after.table(name) == table
                &&& after.alike_but_for(self, name)
            }),
    {
        let at = self.position(name);
        let after = self.with_table_replaced(name, table);
        assert(self.named_at(name, at));
        self.replacement_is_wf(name, table);
        assert(after.named_at(name, at));
        after.position_is_unique(name, at);
        assert forall|other: Seq<char>|
            #[trigger] after.has_table(other) <==> self.has_table(other) by {
            if self.has_table(other) {
                let was = self.position(other);
                assert(self.named_at(other, was));
                assert(after.named_at(other, was));
            }
            if after.has_table(other) {
                let now = after.position(other);
                assert(after.named_at(other, now));
                assert(self.named_at(other, now));
            }
        }
        assert forall|other: Seq<char>|
            other != name && self.has_table(other) implies #[trigger] after.table(other)
            == self.table(other) by {
            let was = self.position(other);
            assert(self.named_at(other, was));
            assert(after.named_at(other, was));
            after.position_is_unique(other, was);
        }
    }

    /// In a well-formed schema a name is found at one index only.
    pub proof fn position_is_unique(self, name: Seq<char>, i: int)
        requires
            self.wf(),
            self.named_at(name, i),
        ensures
            self.has_table(name),
            self.position(name) == i,
    {
        let at = self.position(name);
        assert(self.named_at(name, at));
        if at < i {
            assert(self.tables[at].name != self.tables[i].name);
        } else if i < at {
            assert(self.tables[i].name != self.tables[at].name);
        }
    }
}

/// A relational schema held in memory, with the rows of its tables.
#[derive(Clone, Debug, PartialEq, Eq)]
pub struct Schema {
    tables: Vec<Table>,
}

impl View for Schema {
    type V = SchemaView;

    closed spec fn view(&self) -> SchemaView {
        SchemaView { tables: tables_view(self.tables@) }
    }
}

impl Schema {
    /// The schema's invariant: see [`SchemaView::wf`].
    pub open spec fn wf(&self) -> bool {
        self@.wf()
    }

    /// A schema without tables.
    pub fn new() -> (schema: Schema)
        ensures
            schema.wf(),
            schema@.tables == Seq::<TableView>::empty(),
    {
        let schema = Schema { tables: Vec::new() };
        assert(schema@.tables =~= Seq::<TableView>::empty());
        schema
    }

    /// The index of the table of that name, if the schema has one.
    fn table_index(&self, name: &String) -> (found: Option<usize>)
        requires
            self.wf(),
        ensures
            match found {
                Some(i) => self@.has_table(name@) && i == self@.position(name@),
                None => !self@.has_table(name@),
            },
    {
        let mut i: usize = 0;
        while i < self.tables.len()
            invariant
                self.wf(),
                i <= self.tables.len(),
                forall|k: int| 0 <= k < i ==> !self@.named_at(name@, k),
            decreases self.tables.len() - i,
        {
            if self.tables[i].is_named(name) {
                proof {
                    self@.position_is_unique(name@, i as int);
                }
                return Some(i);
            }
            i += 1;
        }
        None
    }

    /// Takes a table into the schema, after those that it has. A schema that
    /// already has a table of that name is left as it is.
    pub fn create_table(&mut self, table: Table) -> (outcome: Result<(), DatabaseError>)
        requires
            old(self).wf(),
            table.wf(),
        ensures
            final(self).wf(),
            !old(self)@.has_table(table@.name) ==> outcome is Ok && final(self)@ == old(
                self,
            )@.with_table(table@),
            old(self)@.has_table(table@.name) ==> outcome == Err::<(), DatabaseError>(
                DatabaseError::TableExists,
            ) && final(self)@ == old(self)@,
    {
        let name = table.name().to_owned();
        if self.table_index(&name).is_some() {
            return Err(DatabaseError::TableExists);
        }
        let ghost created = table@;
        self.tables.push(table);
        proof {
            let before = old(self)@;
            let after = before.with_table(created);
            assert(self@.tables =~= after.tables);
            assert forall|i: int, j: int|
                0 <= i < j < after.tables.len() implies after.tables[i].name
                != after.tables[j].name by {
                if j == before.tables.len() {
                    assert(!before.named_at(created.name, i));
                } else {
                    assert(before.tables[i].name != before.tables[j].name);
                }
            }
            assert forall|i: int|
                0 <= i < after.tables.len() implies (#[trigger] after.tables[i]).wf() by {
                if i < before.tables.len() {
                    assert(before.tables[i].wf());
                }
            }
        }
        Ok(())
    }

    /// The table of that name, if the schema has one.
    pub fn table(&self, name: &str) -> (found: Option<&Table>)
        requires
            self.wf(),
        ensures
            match found {
                Some(table) => self@.has_table(name@) && table@ == self@.table(name@) && table.wf(),
                None => !self@.has_table(name@),
            },
    {
        let name = name.to_owned();
        match self.table_index(&name) {
            Some(i) => {
                assert(self@.tables[i as int].wf());
                Some(&self.tables[i])
            },
            None => None,
        }
    }

    /// Carries out an alteration on the table that it names. A refused
    /// alteration leaves the schema as it is.
    pub fn alter_table(&mut self, alteration: TableAlteration) -> (outcome: Result<
        (),
        DatabaseError,
    >)
        requires
            old(self).wf(),
        ensures
            final(self).wf(),
            match old(self)@.altered(alteration@) {
                Ok(schema) => outcome is Ok && final(self)@ == schema,
                Err(reason) => outcome == Err::<(), DatabaseError>(reason)
                    && final(self)@ == old(self)@,
            },
    {
        let TableAlteration { table, change } = alteration;
        let at = match self.table_index(&table) {
            Some(at) => at,
            None => {
                return Err(DatabaseError::TableNotFound);
            },
        };
        assert(old(self)@.tables[at as int].wf());
        let outcome = self.tables[at].alter(change);
        proof {
            let before = old(self)@;
            assert(self.tables@ =~= old(self).tables@.update(at as int, self.tables[at as int]));
            assert(self@.tables =~= before.tables.update(at as int, self.tables[at as int]@));
            match before.table(table@).altered(change@) {
                Ok(altered) => {
                    assert(self@.tables =~= before.with_table_replaced(table@, altered).tables);
                    before.replacement_is_wf(table@, altered);
                },
                Err(_) => {
                    assert(self@.tables =~= before.tables);
                },
            }
        }
        outcome
    }
}

} // verus!
