//! The schema change that removes the `status` column from the `snapshot`
//! table, together with a verified account of what that change means.
//!
//! The change is data: a [`TableAlteration`] names a table and one change to
//! its columns. [`Schema`] is a relational schema held in memory, on which an
//! alteration can be carried out, and whose behaviour is proved. [`Migration`]
//! offers the step both ways: on such a schema, and as the statement that a
//! schema manager runs against a live database.

pub mod alteration;
pub mod column;
pub mod error;
pub mod migration;
pub mod schema;
pub mod statement;
pub mod table;
pub mod value;

pub use alteration::{ColumnChange, ColumnChangeView, TableAlteration, TableAlterationView};
pub use column::{Column, ColumnType, ColumnView};
pub use error::DatabaseError;
pub use migration::Migration;
pub use schema::{Schema, SchemaView};
pub use table::{Table, TableView};
pub use value::{Value, ValueView};
