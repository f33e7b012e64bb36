use three_body_lang::ast::Ident;
use three_body_lang::evaluator::equal::same_object;
use three_body_lang::evaluator::object::{Native, Object};

#[test]
fn object_test_object_int() {
    let obj = Object::Int(520);
    assert_eq!(obj.to_text(), "520");
}

#[test]
fn object_test_object_string() {
    let obj = Object::String("woshiaf".to_string());
    assert_eq!(obj.to_text(), "\"woshiaf\"");
}

#[test]
fn object_test_object_bool() {
    let obj = Object::Bool(true);
    assert_eq!(obj.to_text(), "true");
}

#[test]
fn object_test_object_array() {
    let obj = Object::Array(vec![Object::Int(1), Object::Int(2), Object::Int(3)]);
    assert_eq!(obj.to_text(), "[1, 2, 3]");
}

#[test]
fn object_test_object_hash() {
    let hash = vec![(Object::String("a".to_string()), Object::Int(1))];

    let obj = Object::Hash(hash);
    assert_eq!(obj.to_text(), "{\"a\": 1}");
}

#[test]
fn object_test_object_func() {
    let obj = Object::Function(
        vec![Ident("x".to_string()), Ident("y".to_string())],
        vec![],
        0,
    );
    assert_eq!(obj.to_text(), "fn(x, y) { ... }");
}

#[test]
fn object_test_object_builtin() {
    let obj = Object::Builtin(0, Native::Len);
    assert_eq!(obj.to_text(), "[builtin function]");
}

#[test]
fn object_test_object_null() {
    let obj = Object::Null;
    assert_eq!(obj.to_text(), "null");
}

#[test]
fn object_test_object_break() {
    let obj = Object::BreakStatement;
    assert_eq!(obj.to_text(), "BreakStatement");
}

#[test]
fn object_test_object_continue() {
    let obj = Object::ContinueStatement;
    assert_eq!(obj.to_text(), "ContinueStatement");
}

#[test]
fn object_test_object_return_value() {
    let obj = Object::ReturnValue(Box::new(Object::Int(42)));
    assert_eq!(obj.to_text(), "ReturnValue(42)");
}

#[test]
fn object_test_object_error() {
    let obj = Object::Error("something went wrong".to_string());
    assert_eq!(obj.to_text(), "Error(something went wrong)");
}

#[test]
fn test_object_hash_order() {
    let obj = Object::Hash(vec![
        (Object::String("foo".to_string()), Object::Int(42)),
        (Object::String("bar".to_string()), Object::Int(1337)),
    ]);
    assert_eq!(obj.to_text(), "{\"foo\": 42, \"bar\": 1337}");
}

#[test]
fn test_object_escapes() {
    let obj = Object::String("a\"b\\c\nd\te\rf\0g".to_string());
    assert_eq!(obj.to_text(), "\"a\\\"b\\\\c\\nd\\te\\rf\\0g\"");
    assert_eq!(Object::Int(-9223372036854775808).to_text(), "-9223372036854775808");
    assert_eq!(Object::Int(0).to_text(), "0");
    assert_eq!(Object::Int(1203).to_text(), "1203");
    assert_eq!(Object::Bool(false).to_text(), "false");
    assert_eq!(Object::Array(vec![]).to_text(), "[]");
    assert_eq!(Object::Hash(vec![]).to_text(), "{}");
    assert_eq!(Object::Function(vec![], vec![], 0).to_text(), "fn() { ... }");
}

#[test]
fn test_object_copies() {
    let obj = Object::Array(vec![
        Object::Hash(vec![(Object::Int(1), Object::String("x".to_string()))]),
        Object::Function(vec![Ident("a".to_string())], vec![], 3),
        Object::ReturnValue(Box::new(Object::Null)),
    ]);
    assert_eq!(obj.clone(), obj);
    assert!(same_object(&obj, &obj.clone()));
    assert!(!same_object(&obj, &Object::Array(vec![])));
    assert!(!same_object(&Object::Int(1), &Object::Bool(true)));
    assert!(!same_object(
        &Object::Function(vec![], vec![], 1),
        &Object::Function(vec![], vec![], 2)
    ));
}
