use zkfp::db_error::DbError;
use zkfp::query::QueryBuilder;
use zkfp::schema::{Column, ColumnConstraint, DataType, Schema, TableSchema};
use zkfp::store::{delete_all_statement, insert_statement, plan_delete, plan_insert, plan_update, row_not_found};
use zkfp::value::{base64_encode, Value};

fn users_schema() -> Schema {
    let mut s = Schema::new();
    let mut t = TableSchema::new("users".to_string());
    t.add_column(Column::new("id".to_string(), DataType::Integer, vec![ColumnConstraint::PrimaryKey]));
    t.add_column(Column::new("name".to_string(), DataType::Text, vec![ColumnConstraint::NotNull]));
    t.add_column(Column::new("age".to_string(), DataType::Integer, vec![]));
    s.add_table(t).unwrap();
    s
}

fn keys(ks: &[&str]) -> Vec<String> {
    ks.iter().map(|k| k.to_string()).collect()
}

#[test]
fn insert_plan_skips_internal_keys() {
    let s = users_schema();
    let p = plan_insert(&s, "users", &keys(&["_synced", "age", "id", "name"]), true).unwrap();
    assert_eq!(p.sql, "INSERT INTO users (age, name) VALUES (?1, ?2)");
    assert_eq!(p.kept, vec![1, 3]);
    let bulk = plan_insert(&s, "users", &keys(&["id", "name"]), false).unwrap();
    assert_eq!(bulk.sql, "INSERT INTO users (id, name) VALUES (?1, ?2)");
}

#[test]
fn insert_plan_errors() {
    let s = users_schema();
    match plan_insert(&s, "users", &keys(&["name", "email", "zip"]), true) {
        Err(DbError::ColumnNotFound(k)) => assert_eq!(k, "email"),
        other => panic!("unexpected {:?}", other.map(|p| p.sql)),
    }
    match plan_insert(&s, "nope", &keys(&["name"]), true) {
        Err(DbError::TableNotFound(t)) => assert_eq!(t, "nope"),
        other => panic!("unexpected {:?}", other.map(|p| p.sql)),
    }
}

#[test]
fn update_and_delete_plans() {
    let s = users_schema();
    let p = plan_update(&s, "users", &keys(&["name", "_x", "id"])).unwrap();
    assert_eq!(
        p.sql,
        "UPDATE users SET name = ?, _updated_at = CURRENT_TIMESTAMP, _synced = 0 WHERE id = ?"
    );
    assert_eq!(p.kept, vec![0]);
    assert_eq!(plan_delete(&s, "users").unwrap(), "DELETE FROM users WHERE id = ?");
    assert!(matches!(plan_delete(&s, "x"), Err(DbError::TableNotFound(_))));
    match row_not_found(-4, "users") {
        DbError::Schema(m) => assert_eq!(m, "Row -4 not found in users"),
        other => panic!("unexpected {:?}", other),
    }
}

#[test]
fn statement_texts() {
    assert_eq!(
        insert_statement(true, "t", &keys(&["a", "b", "c"])),
        "REPLACE INTO t (a, b, c) VALUES (?1, ?2, ?3)"
    );
    assert_eq!(insert_statement(false, "t", &keys(&[])), "INSERT INTO t () VALUES ()");
    assert_eq!(delete_all_statement("t"), "DELETE FROM t");
}

#[test]
fn query_sql() {
    let q = QueryBuilder::new("users")
        .where_eq("name", Value::Text("Alice".to_string()))
        .where_gt("age", Value::Integer(25))
        .where_null("email")
        .order_by("age", false)
        .limit(2)
        .offset(4);
    let (sql, params) = q.build_sql();
    assert_eq!(
        sql,
        "SELECT * FROM users WHERE name = ? AND age > ? AND email IS NULL ORDER BY age DESC LIMIT 2 OFFSET 4"
    );
    assert_eq!(params, vec![Value::Text("Alice".to_string()), Value::Integer(25)]);
    let (count, cparams) = q.build_count_sql();
    assert_eq!(count, "SELECT COUNT(*) as count FROM users WHERE name = ? AND age > ? AND email IS NULL");
    assert_eq!(cparams.len(), 2);
    let (w, _) = QueryBuilder::new("t").where_like("n", "A%").where_not_null("m").where_ne("k", Value::Null).build_where_clause();
    assert_eq!(w, "n LIKE ? AND m IS NOT NULL AND k != ?");
    let (all, p) = QueryBuilder::new("t").build_sql();
    assert_eq!(all, "SELECT * FROM t");
    assert!(p.is_empty());
}

#[test]
fn value_accessors() {
    let v: Value = 42i64.into();
    assert_eq!(v.as_i64().unwrap(), 42);
    let v: Value = "hello".to_string().into();
    assert_eq!(v.as_str().unwrap(), "hello");
    let v: Value = true.into();
    assert_eq!(v.as_bool().unwrap(), true);
    assert_eq!(Value::Integer(0).as_bool().unwrap(), false);
    let v: Value = vec![1u8, 2].into();
    assert_eq!(v.as_bytes().unwrap(), &[1, 2]);
    assert!(Value::Null.is_null());
    match Value::Null.as_i64() {
        Err(DbError::TypeMismatch { expected, actual }) => {
            assert_eq!(expected, "Integer");
            assert_eq!(actual, "Null");
        }
        other => panic!("unexpected {:?}", other),
    }
    assert_eq!(base64_encode(&[0, 15, 255]), "000fff");
}
