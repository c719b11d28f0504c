use zkfp::db_error::DbError;
use zkfp::schema::{Column, ColumnConstraint, DataType, Schema, TableBuilder, TableSchema};

#[test]
fn test_column_ddl() {
    let col = Column::new(
        "name".to_string(),
        DataType::Text,
        vec![ColumnConstraint::NotNull],
    );
    assert_eq!(col.to_sqlite_ddl(), "name TEXT NOT NULL");
}

#[test]
fn test_table_schema() {
    let mut schema = TableSchema::new("users".to_string());
    schema.add_column(Column::new(
        "id".to_string(),
        DataType::Integer,
        vec![ColumnConstraint::PrimaryKey],
    ));
    schema.add_column(Column::new(
        "name".to_string(),
        DataType::Text,
        vec![ColumnConstraint::NotNull],
    ));

    let ddl = schema.to_sqlite_create();
    assert!(ddl.contains("CREATE TABLE"));
    assert!(ddl.contains("users"));
}

#[test]
fn test_schema_registry() {
    let mut registry = Schema::new();
    let schema = TableSchema::new("users".to_string());

    registry.add_table(schema).unwrap();
    assert!(registry.table_exists("users"));
    assert_eq!(registry.list_tables(), vec!["users"]);
}

#[test]
fn sqlite_create_statement_exact() {
    let mut schema = TableSchema::new("users".to_string());
    schema.add_column(Column::new(
        "id".to_string(),
        DataType::Integer,
        vec![ColumnConstraint::PrimaryKey, ColumnConstraint::AutoIncrement],
    ));
    schema.add_column(Column::new("name".to_string(), DataType::Text, vec![ColumnConstraint::NotNull]));
    assert_eq!(
        schema.to_sqlite_create(),
        "CREATE TABLE IF NOT EXISTS users (\n  id INTEGER PRIMARY KEY AUTOINCREMENT,\n  name TEXT NOT NULL\n)"
    );
}

#[test]
fn postgres_ddl_drops_autoincrement_and_maps_types() {
    let col = Column::new(
        "id".to_string(),
        DataType::Integer,
        vec![ColumnConstraint::PrimaryKey, ColumnConstraint::AutoIncrement],
    );
    assert_eq!(col.to_postgres_ddl(), "id BIGINT PRIMARY KEY");
    let fk = Column::new(
        "owner".to_string(),
        DataType::Blob,
        vec![ColumnConstraint::ForeignKey { table: "users".to_string(), column: "id".to_string() }],
    );
    assert_eq!(fk.to_postgres_ddl(), "owner BYTEA REFERENCES users(id)");
    assert_eq!(fk.to_sqlite_ddl(), "owner BLOB REFERENCES users(id)");
    let d = Column::new(
        "flag".to_string(),
        DataType::Boolean,
        vec![ColumnConstraint::Default("0".to_string())],
    );
    assert_eq!(d.to_sqlite_ddl(), "flag INTEGER DEFAULT 0");
    assert_eq!(d.to_postgres_ddl(), "flag BOOLEAN DEFAULT 0");
}

#[test]
fn data_type_names() {
    assert_eq!(DataType::Real.to_sqlite(), "REAL");
    assert_eq!(DataType::Timestamp.to_sqlite(), "DATETIME");
    assert_eq!(DataType::Real.to_postgres(), "DOUBLE PRECISION");
    assert_eq!(DataType::Timestamp.to_postgres(), "TIMESTAMP");
}

#[test]
fn duplicate_table_is_refused() {
    let mut registry = Schema::new();
    registry.add_table(TableSchema::new("users".to_string())).unwrap();
    match registry.add_table(TableSchema::new("users".to_string())) {
        Err(DbError::Schema(m)) => assert_eq!(m, "Table 'users' already exists"),
        other => panic!("unexpected {:?}", other),
    }
    assert_eq!(registry.list_tables().len(), 1);
    assert!(registry.get_table("users").is_some());
    assert!(registry.get_table("other").is_none());
    assert!(!registry.table_exists("other"));
}

#[test]
fn get_column_finds_by_name() {
    let mut schema = TableSchema::new("t".to_string());
    schema.add_column(Column::new("a".to_string(), DataType::Integer, vec![]));
    schema.add_column(Column::new("b".to_string(), DataType::Text, vec![]));
    assert_eq!(schema.get_column("b").unwrap().data_type, DataType::Text);
    assert!(schema.get_column("c").is_none());
}

#[test]
fn table_builder_frames_user_columns() {
    let t = TableBuilder::new("users")
        .column("name", DataType::Text, vec![ColumnConstraint::NotNull])
        .build();
    let names: Vec<&str> = t.columns.iter().map(|c| c.name.as_str()).collect();
    assert_eq!(names, vec!["id", "name", "_created_at", "_updated_at", "_synced"]);
    assert_eq!(t.columns[0].to_sqlite_ddl(), "id INTEGER PRIMARY KEY AUTOINCREMENT");
    assert_eq!(t.columns[2].to_sqlite_ddl(), "_created_at DATETIME DEFAULT CURRENT_TIMESTAMP");
    assert_eq!(t.columns[4].to_sqlite_ddl(), "_synced INTEGER DEFAULT 0");
}
