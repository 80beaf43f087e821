use sea_orm_migration::sea_query::{MysqlQueryBuilder, PostgresQueryBuilder, SqliteQueryBuilder};
use snapshot_migration::statement::{add_text_column_statement, drop_column_statement};
use snapshot_migration::Migration;

#[test]
fn up_statement_drops_status_from_snapshot() {
    let statement = Migration.up_statement();
    assert_eq!(
        statement.to_string(PostgresQueryBuilder),
        r#"ALTER TABLE "snapshot" DROP COLUMN "status""#
    );
    assert_eq!(
        statement.to_string(MysqlQueryBuilder),
        "ALTER TABLE `snapshot` DROP COLUMN `status`"
    );
    assert_eq!(
        statement.to_string(SqliteQueryBuilder),
        r#"ALTER TABLE "snapshot" DROP COLUMN "status""#
    );
}

#[test]
fn down_statement_adds_status_to_snapshot_as_text() {
    let statement = Migration.down_statement();
    assert_eq!(
        statement.to_string(PostgresQueryBuilder),
        r#"ALTER TABLE "snapshot" ADD COLUMN "status" text"#
    );
    assert_eq!(
        statement.to_string(MysqlQueryBuilder),
        "ALTER TABLE `snapshot` ADD COLUMN `status` text"
    );
    assert_eq!(
        statement.to_string(SqliteQueryBuilder),
        r#"ALTER TABLE "snapshot" ADD COLUMN "status" text"#
    );
}

#[test]
fn drop_column_statement_names_its_table_and_column() {
    let statement = drop_column_statement("book", "title");
    assert_eq!(
        statement.to_string(PostgresQueryBuilder),
        r#"ALTER TABLE "book" DROP COLUMN "title""#
    );
    let other = drop_column_statement("title", "book");
    assert_eq!(other.to_string(PostgresQueryBuilder), r#"ALTER TABLE "title" DROP COLUMN "book""#);
}

#[test]
fn add_text_column_statement_names_its_table_and_column() {
    let statement = add_text_column_statement("book", "title");
    assert_eq!(
        statement.to_string(PostgresQueryBuilder),
        r#"ALTER TABLE "book" ADD COLUMN "title" text"#
    );
    let other = add_text_column_statement("title", "book");
    assert_eq!(
        other.to_string(PostgresQueryBuilder),
        r#"ALTER TABLE "title" ADD COLUMN "book" text"#
    );
}

#[test]
fn statements_hold_one_change_each() {
    let up = Migration.up_statement().to_string(PostgresQueryBuilder);
    let down = Migration.down_statement().to_string(PostgresQueryBuilder);
    assert_eq!(up.matches("COLUMN").count(), 1);
    assert_eq!(down.matches("COLUMN").count(), 1);
    assert!(!down.contains("NOT NULL"));
    assert!(!down.contains("IF NOT EXISTS"));
}
