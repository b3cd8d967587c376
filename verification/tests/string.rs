use ok_schema::error::{json_error, test_error, type_error};
use ok_schema::json::{Json, JsonType};
use ok_schema::{string, OkSchema};
use regex::RegexBuilder;

#[test]
fn it_validates_strings() {
    let schema = string();
    assert_eq!(schema.validate(Json::string("foo")), Ok(Json::string("foo")));
    assert_eq!(schema.validate(Json::Bool(true)), Ok(Json::string("true")));
    assert_eq!(schema.validate(Json::Integer(1)), Ok(Json::string("1")));
    assert_eq!(
        schema.validate(Json::Null),
        Err(json_error(vec![type_error("", "", JsonType::String)]))
    );
    assert_eq!(
        schema.validate(Json::Array(vec![])),
        Err(json_error(vec![type_error("", "", JsonType::String)]))
    );
    assert_eq!(
        schema.validate(Json::Object(vec![])),
        Err(json_error(vec![type_error("", "", JsonType::String)]))
    );
}

#[test]
fn string_it_sets_a_minimum_and_maximum_length() {
    let schema = string().label("My String").length((1, 3));
    assert_eq!(schema.validate(Json::string("foo")), Ok(Json::string("foo")));
    assert_eq!(
        schema.validate(Json::string("")),
        Err(json_error(vec![test_error(
            "length",
            "",
            "My String must be between 1 and 3 characters long."
        )]))
    );
    assert_eq!(
        schema.validate(Json::string("quux")),
        Err(json_error(vec![test_error(
            "length",
            "",
            "My String must be between 1 and 3 characters long."
        )]))
    );
}

#[test]
fn string_it_sets_a_minimum_length() {
    let schema = string().label("My String").min_length(4);
    assert_eq!(schema.validate(Json::string("quux")), Ok(Json::string("quux")));
    assert_eq!(
        schema.validate(Json::string("qux")),
        Err(json_error(vec![test_error(
            "min_length",
            "",
            "My String must be at least 4 characters long."
        )]))
    );
}

#[test]
fn string_it_sets_a_maximum_length() {
    let schema = string().label("My String").max_length(3);
    assert_eq!(schema.validate(Json::string("qux")), Ok(Json::string("qux")));
    assert_eq!(
        schema.validate(Json::string("quux")),
        Err(json_error(vec![test_error(
            "max_length",
            "",
            "My String must be at most 3 characters long."
        )]))
    );
}

#[test]
fn it_sets_a_regex_matches() {
    let schema = string().label("My String").matches("(?i)^foo");
    assert_eq!(schema.validate(Json::string("Foobar")), Ok(Json::string("Foobar")));
    assert_eq!(
        schema.validate(Json::string("Barfoo")),
        Err(json_error(vec![test_error(
            "matches",
            "",
            "My String must match the pattern '(?i)^foo'."
        )]))
    )
}

#[test]
fn it_sets_a_regex_object() {
    let regex = RegexBuilder::new("(?i)^foo").build().unwrap();
    let schema = string().label("My String").regex(regex);
    assert_eq!(schema.validate(Json::string("Foobar")), Ok(Json::string("Foobar")));
    assert_eq!(
        schema.validate(Json::string("Barfoo")),
        Err(json_error(vec![test_error(
            "matches",
            "",
            "My String must match the pattern '(?i)^foo'."
        )]))
    )
}

#[test]
fn it_trims_strings() {
    let schema = string().trim();
    assert_eq!(schema.validate(Json::string("  foo  ")), Ok(Json::string("foo")));
}

#[test]
fn it_uppercases_strings() {
    let schema = string().uppercase();
    assert_eq!(schema.validate(Json::string("foo")), Ok(Json::string("FOO")));
}

#[test]
fn it_lowercases_strings() {
    let schema = string().lowercase();
    assert_eq!(schema.validate(Json::string("FOO")), Ok(Json::string("foo")));
}

#[test]
fn it_takes_a_pattern_only_if_it_compiles() {
    let schema = string().label("s").try_matches("^a+$");
    assert!(schema.is_ok());
    let schema = match schema {
        Ok(schema) => schema,
        Err(schema) => schema,
    };
    assert_eq!(schema.validate(Json::string("aaa")), Ok(Json::string("aaa")));
    assert_eq!(
        schema.validate(Json::string("ab")),
        Err(json_error(vec![test_error(
            "matches",
            "",
            "s must match the pattern '^a+$'."
        )]))
    );
    let unchanged = string().try_matches("foo(bar");
    assert!(unchanged.is_err());
    let unchanged = match unchanged {
        Ok(schema) => schema,
        Err(schema) => schema,
    };
    assert_eq!(unchanged.validate(Json::string("x")), Ok(Json::string("x")));
}

#[test]
fn it_applies_transforms_in_order_and_before_the_tests() {
    let schema = string().label("s").trim().uppercase().max_length(3);
    assert_eq!(schema.validate(Json::string("  abc  ")), Ok(Json::string("ABC")));
    assert_eq!(
        schema.validate(Json::string(" abcd ")),
        Err(json_error(vec![test_error(
            "max_length",
            "",
            "s must be at most 3 characters long."
        )]))
    );
    let pattern = string().lowercase().matches("^[a-z]+$");
    assert_eq!(pattern.validate(Json::string("ABC")), Ok(Json::string("abc")));
}

#[test]
fn it_trims_every_kind_of_white_space() {
    let schema = string().trim();
    assert_eq!(
        schema.validate(Json::string("\u{9}\u{a}\u{b}\u{c}\u{d} \u{85}\u{a0}\u{1680}\u{2000}\u{200a}\u{2028}\u{2029}\u{202f}\u{205f}\u{3000}x y\u{3000}")),
        Ok(Json::string("x y"))
    );
    assert_eq!(schema.validate(Json::string("   ")), Ok(Json::string("")));
    assert_eq!(schema.validate(Json::string("")), Ok(Json::string("")));
    assert_eq!(
        schema.validate(Json::string("\u{200b}x\u{feff}")),
        Ok(Json::string("\u{200b}x\u{feff}"))
    );
}

#[test]
fn it_measures_strings_in_bytes() {
    let schema = string().label("s").max_length(3);
    assert_eq!(schema.validate(Json::string("aé")), Ok(Json::string("aé")));
    assert_eq!(
        schema.validate(Json::string("éé")),
        Err(json_error(vec![test_error(
            "max_length",
            "",
            "s must be at most 3 characters long."
        )]))
    );
}

#[test]
fn it_writes_numbers_as_text() {
    let schema = string();
    assert_eq!(schema.validate(Json::Integer(-42)), Ok(Json::string("-42")));
    assert_eq!(schema.validate(Json::Integer(0)), Ok(Json::string("0")));
    assert_eq!(
        schema.validate(Json::Integer(i64::MIN)),
        Ok(Json::string("-9223372036854775808"))
    );
    assert_eq!(
        schema.validate(Json::Unsigned(u64::MAX)),
        Ok(Json::string("18446744073709551615"))
    );
    assert_eq!(schema.validate(Json::Bool(false)), Ok(Json::string("false")));
    assert_eq!(
        schema.validate(Json::float(1.5f64.to_bits(), "1.5")),
        Ok(Json::string("1.5"))
    );
}
