use ok_schema::error::{json_error, test_error, type_error};
use ok_schema::json::{Json, JsonType};

fn record(type_: &str, path: &str, message: &str, errors: Vec<Json>) -> Json {
    Json::Object(vec![
        ("path".to_string(), Json::string(path)),
        ("message".to_string(), Json::string(message)),
        ("type".to_string(), Json::string(type_)),
        ("errors".to_string(), Json::Array(errors)),
    ])
}

#[test]
fn it_serializes_type_errors() {
    let err = type_error("foo", "My Boolean", JsonType::Boolean);
    assert_eq!(
        err.to_json(),
        record(
            "type_error",
            "foo",
            "My Boolean must be of type `Boolean`.",
            vec![]
        )
    );
}

#[test]
fn it_serializes_test_errors() {
    let err = test_error("no_good", "foo", "Validation failed for foo!");
    assert_eq!(
        err.to_json(),
        record("no_good", "foo", "Validation failed for foo!", vec![])
    );
}

#[test]
fn it_serializes_json_errors() {
    let err = json_error(vec![type_error("foo", "My Boolean", JsonType::Boolean)]);
    assert_eq!(
        err.to_json(),
        record(
            "invalid_json",
            "",
            "1 validation error occurred.",
            vec![record(
                "type_error",
                "foo",
                "My Boolean must be of type `Boolean`.",
                vec![]
            )]
        )
    );
}

#[test]
fn it_counts_the_errors_that_it_collects() {
    assert_eq!(json_error(vec![]).message(), "0 validation errors occurred.");
    let two = json_error(vec![
        test_error("a", "x", "m"),
        test_error("b", "y", "n"),
    ]);
    assert_eq!(two.message(), "2 validation errors occurred.");
    assert_eq!(two.kind(), "invalid_json");
    assert_eq!(two.path(), "");
    assert_eq!(two.errors().len(), 2);
    assert_eq!(two.errors()[1].kind(), "b");
    assert_eq!(two.errors()[1].path(), "y");
    assert_eq!(two.errors()[1].message(), "n");
}

#[test]
fn it_names_every_kind() {
    assert_eq!(JsonType::Array.as_str(), "Array");
    assert_eq!(JsonType::Boolean.as_str(), "Boolean");
    assert_eq!(JsonType::Float.as_str(), "Float");
    assert_eq!(JsonType::Integer.as_str(), "Integer");
    assert_eq!(JsonType::Absent.as_str(), "none");
    assert_eq!(JsonType::Null.as_str(), "null");
    assert_eq!(JsonType::Number.as_str(), "Number");
    assert_eq!(JsonType::Object.as_str(), "Object");
    assert_eq!(JsonType::String.as_str(), "String");
    assert_eq!(JsonType::Unsigned.as_str(), "Unsigned Integer");
}

#[test]
fn it_tells_the_kind_of_a_document() {
    assert_eq!(JsonType::from(&None), JsonType::Absent);
    assert_eq!(JsonType::from(&Some(Json::Null)), JsonType::Null);
    assert_eq!(JsonType::from(&Some(Json::Bool(true))), JsonType::Boolean);
    assert_eq!(JsonType::from(&Some(Json::Integer(1))), JsonType::Number);
    assert_eq!(JsonType::from(&Some(Json::Unsigned(u64::MAX))), JsonType::Number);
    assert_eq!(
        JsonType::from(&Some(Json::float(1.5f64.to_bits(), "1.5"))),
        JsonType::Number
    );
    assert_eq!(JsonType::from(&Some(Json::string("x"))), JsonType::String);
    assert_eq!(JsonType::from(&Some(Json::Array(vec![]))), JsonType::Array);
    assert_eq!(JsonType::from(&Some(Json::Object(vec![]))), JsonType::Object);
}
