use zkfp::db_error::DbError;
use zkfp::value::{value_description, Value};

#[test]
fn test_value_conversions() {
    let v: Value = 42i64.into();
    assert_eq!(v.as_i64().unwrap(), 42);

    let v: Value = "hello".into();
    assert_eq!(v.as_str().unwrap(), "hello");

    let v: Value = true.into();
    assert_eq!(v.as_bool().unwrap(), true);
}

#[test]
fn text_from_str_keeps_the_characters() {
    let v = Value::from("héllo, wörld");
    assert_eq!(v.as_str().unwrap(), "héllo, wörld");
    assert!(v.as_i64().is_err());
}

#[test]
fn value_descriptions() {
    assert_eq!(value_description(&Value::Null), "Null");
    assert_eq!(value_description(&Value::Integer(-5)), "Integer(-5)");
    assert_eq!(value_description(&Value::Real(7)), "Real(7)");
    assert_eq!(value_description(&Value::Text("a\"b\\c\n".to_string())), "Text(\"a\\\"b\\\\c\\n\")");
    assert_eq!(value_description(&Value::Blob(vec![1, 2, 3])), "Blob([1, 2, 3])");
    assert_eq!(value_description(&Value::Blob(vec![])), "Blob([])");
    assert_eq!(value_description(&Value::Boolean(true)), "Boolean(true)");
    match Value::Text("x".to_string()).as_i64() {
        Err(DbError::TypeMismatch { expected, actual }) => {
            assert_eq!(expected, "Integer");
            assert_eq!(actual, "Text(\"x\")");
        }
        other => panic!("unexpected {:?}", other),
    }
}
