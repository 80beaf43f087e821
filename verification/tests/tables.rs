use snapshot_migration::{
    Column, ColumnChange, ColumnType, DatabaseError, Schema, Table, TableAlteration, Value,
};

fn two_column_table() -> Table {
    let mut table = Table::new("book");
    table.add_column(Column::new("id", ColumnType::Integer, false)).unwrap();
    table.add_column(Column::new("title", ColumnType::Text, true)).unwrap();
    table
}

#[test]
fn new_table_is_empty() {
    let table = Table::new("book");
    assert_eq!(table.name(), "book");
    assert!(table.columns().is_empty());
    assert!(table.rows().is_empty());
}

#[test]
fn column_constructors_fill_the_fields() {
    let column = Column::new("id", ColumnType::Integer, false);
    assert_eq!(column.name, "id");
    assert_eq!(column.column_type, ColumnType::Integer);
    assert!(!column.nullable);
    let text = Column::nullable_text("status");
    assert_eq!(
        text,
        Column { name: "status".to_string(), column_type: ColumnType::Text, nullable: true }
    );
}

#[test]
fn columns_keep_the_order_of_their_declaration() {
    let table = two_column_table();
    let names: Vec<&str> = table.columns().iter().map(|column| column.name.as_str()).collect();
    assert_eq!(names, vec!["id", "title"]);
    assert_eq!(table.column_index("id"), Some(0));
    assert_eq!(table.column_index("title"), Some(1));
    assert_eq!(table.column_index("author"), None);
}

#[test]
fn column_names_are_compared_exactly() {
    let table = two_column_table();
    assert_eq!(table.column_index("Title"), None);
    assert_eq!(table.column_index("titl"), None);
    assert_eq!(table.column_index("title "), None);
}

#[test]
fn adding_a_column_twice_is_refused() {
    let mut table = two_column_table();
    let before = table.clone();
    let outcome = table.add_column(Column::new("title", ColumnType::Integer, false));
    assert_eq!(outcome, Err(DatabaseError::ColumnExists));
    assert_eq!(table, before);
}

#[test]
fn adding_a_column_gives_every_row_null() {
    let mut table = two_column_table();
    table.insert(vec![Value::Integer(1), Value::Text("Dune".to_string())]).unwrap();
    table.insert(vec![Value::Integer(2), Value::Null]).unwrap();
    table.add_column(Column::new("year", ColumnType::Integer, true)).unwrap();
    assert_eq!(table.column_index("year"), Some(2));
    assert_eq!(
        table.rows(),
        &vec![
            vec![Value::Integer(1), Value::Text("Dune".to_string()), Value::Null],
            vec![Value::Integer(2), Value::Null, Value::Null],
        ]
    );
}

#[test]
fn inserting_keeps_the_order_of_the_rows() {
    let mut table = two_column_table();
    table.insert(vec![Value::Integer(7), Value::Text("b".to_string())]).unwrap();
    table.insert(vec![Value::Integer(3), Value::Text("a".to_string())]).unwrap();
    assert_eq!(
        table.rows(),
        &vec![
            vec![Value::Integer(7), Value::Text("b".to_string())],
            vec![Value::Integer(3), Value::Text("a".to_string())],
        ]
    );
}

#[test]
fn a_row_of_another_width_is_refused() {
    let mut table = two_column_table();
    assert_eq!(table.insert(vec![Value::Integer(1)]), Err(DatabaseError::RowWidth));
    assert_eq!(
        table.insert(vec![Value::Integer(1), Value::Null, Value::Null]),
        Err(DatabaseError::RowWidth)
    );
    assert_eq!(table.insert(vec![]), Err(DatabaseError::RowWidth));
    assert!(table.rows().is_empty());
}

#[test]
fn a_value_of_another_type_is_refused() {
    let mut table = two_column_table();
    assert_eq!(
        table.insert(vec![Value::Text("1".to_string()), Value::Text("Dune".to_string())]),
        Err(DatabaseError::ValueMismatch)
    );
    assert_eq!(
        table.insert(vec![Value::Integer(1), Value::Integer(2)]),
        Err(DatabaseError::ValueMismatch)
    );
    assert_eq!(
        table.insert(vec![Value::Timestamp(1), Value::Null]),
        Err(DatabaseError::ValueMismatch)
    );
    assert!(table.rows().is_empty());
}

#[test]
fn null_is_refused_where_the_column_does_not_admit_it() {
    let mut table = two_column_table();
    assert_eq!(
        table.insert(vec![Value::Null, Value::Text("Dune".to_string())]),
        Err(DatabaseError::ValueMismatch)
    );
    assert_eq!(table.insert(vec![Value::Integer(1), Value::Null]), Ok(()));
    assert_eq!(table.rows(), &vec![vec![Value::Integer(1), Value::Null]]);
}

#[test]
fn width_is_judged_before_the_values() {
    let mut table = two_column_table();
    assert_eq!(table.insert(vec![Value::Null]), Err(DatabaseError::RowWidth));
    assert_eq!(
        table.insert(vec![Value::Null, Value::Null, Value::Null]),
        Err(DatabaseError::RowWidth)
    );
}

#[test]
fn a_value_fits_its_own_type_and_null_fits_nullable_columns() {
    let integer = Column::new("n", ColumnType::Integer, false);
    let text = Column::new("t", ColumnType::Text, true);
    let timestamp = Column::new("at", ColumnType::Timestamp, false);
    assert!(Value::Integer(-3).fits(&integer));
    assert!(!Value::Integer(-3).fits(&text));
    assert!(!Value::Integer(-3).fits(&timestamp));
    assert!(Value::Text(String::new()).fits(&text));
    assert!(!Value::Text(String::new()).fits(&integer));
    assert!(Value::Timestamp(0).fits(&timestamp));
    assert!(!Value::Timestamp(0).fits(&integer));
    assert!(Value::Null.fits(&text));
    assert!(!Value::Null.fits(&integer));
    assert!(!Value::Null.fits(&timestamp));
}

#[test]
fn a_column_that_refuses_null_cannot_be_added_to_rows() {
    let mut table = two_column_table();
    table.insert(vec![Value::Integer(1), Value::Null]).unwrap();
    let before = table.clone();
    assert_eq!(
        table.add_column(Column::new("year", ColumnType::Integer, false)),
        Err(DatabaseError::ValueMismatch)
    );
    assert_eq!(table, before);
    assert_eq!(table.add_column(Column::new("year", ColumnType::Integer, true)), Ok(()));
}

#[test]
fn a_column_that_refuses_null_can_be_added_while_there_are_no_rows() {
    let mut table = two_column_table();
    assert_eq!(table.add_column(Column::new("year", ColumnType::Integer, false)), Ok(()));
    assert_eq!(table.column_index("year"), Some(2));
}

#[test]
fn an_existing_name_is_judged_before_nullability() {
    let mut table = two_column_table();
    table.insert(vec![Value::Integer(1), Value::Null]).unwrap();
    assert_eq!(
        table.add_column(Column::new("id", ColumnType::Integer, false)),
        Err(DatabaseError::ColumnExists)
    );
}

#[test]
fn a_table_without_columns_takes_empty_rows_only() {
    let mut table = Table::new("empty");
    assert_eq!(table.insert(vec![]), Ok(()));
    assert_eq!(table.insert(vec![Value::Null]), Err(DatabaseError::RowWidth));
    assert_eq!(table.rows().len(), 1);
}

#[test]
fn dropping_the_first_column_moves_the_others_up() {
    let mut table = two_column_table();
    table.insert(vec![Value::Integer(1), Value::Text("Dune".to_string())]).unwrap();
    assert_eq!(table.drop_column("id"), Ok(()));
    assert_eq!(table.column_index("id"), None);
    assert_eq!(table.column_index("title"), Some(0));
    assert_eq!(table.columns(), &vec![Column::new("title", ColumnType::Text, true)]);
    assert_eq!(table.rows(), &vec![vec![Value::Text("Dune".to_string())]]);
}

#[test]
fn dropping_a_column_that_is_not_there_is_refused() {
    let mut table = two_column_table();
    table.insert(vec![Value::Integer(1), Value::Null]).unwrap();
    let before = table.clone();
    assert_eq!(table.drop_column("author"), Err(DatabaseError::ColumnNotFound));
    assert_eq!(table, before);
}

#[test]
fn dropping_the_only_column_leaves_empty_rows() {
    let mut table = Table::new("t");
    table.add_column(Column::new("only", ColumnType::Timestamp, false)).unwrap();
    table.insert(vec![Value::Timestamp(5)]).unwrap();
    table.insert(vec![Value::Timestamp(6)]).unwrap();
    assert_eq!(table.drop_column("only"), Ok(()));
    assert!(table.columns().is_empty());
    assert_eq!(table.rows(), &vec![Vec::<Value>::new(), Vec::<Value>::new()]);
}

#[test]
fn altering_a_table_follows_the_change() {
    let mut table = two_column_table();
    assert_eq!(table.alter(ColumnChange::Drop("title".to_string())), Ok(()));
    assert_eq!(table.column_index("title"), None);
    assert_eq!(
        table.alter(ColumnChange::Drop("title".to_string())),
        Err(DatabaseError::ColumnNotFound)
    );
    assert_eq!(table.alter(ColumnChange::Add(Column::nullable_text("title"))), Ok(()));
    assert_eq!(table.column_index("title"), Some(1));
    assert_eq!(
        table.alter(ColumnChange::Add(Column::nullable_text("title"))),
        Err(DatabaseError::ColumnExists)
    );
}

#[test]
fn alteration_constructors_fill_the_fields() {
    let drop = TableAlteration::drop_column("book", "title");
    assert_eq!(drop.table, "book");
    assert_eq!(drop.change, ColumnChange::Drop("title".to_string()));
    let add = TableAlteration::add_column("book", Column::nullable_text("title"));
    assert_eq!(add.table, "book");
    assert_eq!(add.change, ColumnChange::Add(Column::nullable_text("title")));
}

#[test]
fn new_schema_has_no_table() {
    let schema = Schema::new();
    assert!(schema.table("book").is_none());
}

#[test]
fn a_created_table_is_found_by_its_name() {
    let mut schema = Schema::new();
    schema.create_table(two_column_table()).unwrap();
    schema.create_table(Table::new("shelf")).unwrap();
    assert_eq!(schema.table("book"), Some(&two_column_table()));
    assert_eq!(schema.table("shelf"), Some(&Table::new("shelf")));
    assert!(schema.table("Book").is_none());
}

#[test]
fn creating_a_table_twice_is_refused() {
    let mut schema = Schema::new();
    schema.create_table(two_column_table()).unwrap();
    let before = schema.clone();
    assert_eq!(schema.create_table(Table::new("book")), Err(DatabaseError::TableExists));
    assert_eq!(schema, before);
}

#[test]
fn altering_a_table_that_is_not_there_is_refused() {
    let mut schema = Schema::new();
    schema.create_table(two_column_table()).unwrap();
    let before = schema.clone();
    assert_eq!(
        schema.alter_table(TableAlteration::drop_column("shelf", "id")),
        Err(DatabaseError::TableNotFound)
    );
    assert_eq!(
        schema.alter_table(TableAlteration::add_column("shelf", Column::nullable_text("name"))),
        Err(DatabaseError::TableNotFound)
    );
    assert_eq!(schema, before);
}

#[test]
fn altering_touches_the_named_table_only() {
    let mut schema = Schema::new();
    schema.create_table(two_column_table()).unwrap();
    let mut other = Table::new("shelf");
    other.add_column(Column::new("title", ColumnType::Text, false)).unwrap();
    other.insert(vec![Value::Text("top".to_string())]).unwrap();
    schema.create_table(other.clone()).unwrap();
    assert_eq!(schema.alter_table(TableAlteration::drop_column("book", "title")), Ok(()));
    assert_eq!(schema.table("shelf"), Some(&other));
    assert_eq!(schema.table("book").unwrap().column_index("title"), None);
    assert_eq!(schema.table("book").unwrap().column_index("id"), Some(0));
}

#[test]
fn a_refused_change_leaves_the_schema_as_it_was() {
    let mut schema = Schema::new();
    schema.create_table(two_column_table()).unwrap();
    let before = schema.clone();
    assert_eq!(
        schema.alter_table(TableAlteration::drop_column("book", "author")),
        Err(DatabaseError::ColumnNotFound)
    );
    assert_eq!(
        schema.alter_table(TableAlteration::add_column("book", Column::nullable_text("id"))),
        Err(DatabaseError::ColumnExists)
    );
    assert_eq!(schema, before);
}
