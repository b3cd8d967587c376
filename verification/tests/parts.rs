use ok_schema::error::{json_error, test_error, type_error, ValidationError};
use ok_schema::json::{Json, JsonType};
use ok_schema::test::{Rule, Test};
use ok_schema::validator::{Transform, Validator};
use ok_schema::{string, OkSchema};
use regex::Regex;

fn white_space(c: char) -> bool {
    matches!(
        c,
        '\u{9}'..='\u{d}'
            | ' '
            | '\u{85}'
            | '\u{a0}'
            | '\u{1680}'
            | '\u{2000}'..='\u{200a}'
            | '\u{2028}'
            | '\u{2029}'
            | '\u{202f}'
            | '\u{205f}'
            | '\u{3000}'
    )
}

#[test]
fn it_trims_exactly_the_white_space_characters() {
    let schema = string().trim();
    let mut count = 0;
    for code in 0..=0x10_ffffu32 {
        let c = match char::from_u32(code) {
            Some(c) => c,
            None => continue,
        };
        if c.is_whitespace() != white_space(c) {
            panic!("U+{:04X}", code);
        }
        if white_space(c) || code < 0x3100 {
            let given = format!("{}x{}", c, c);
            let expected = if white_space(c) {
                "x".to_string()
            } else {
                given.clone()
            };
            assert_eq!(schema.validate(Json::String(given)), Ok(Json::String(expected)));
            count += 1;
        }
    }
    assert!(count > 0x3000);
}

#[test]
fn a_kind_takes_what_can_be_read_as_it() {
    let ok = |target: JsonType, json: Json| target.coerce("p", "l", json);
    assert_eq!(ok(JsonType::Boolean, Json::Bool(true)), Ok(Json::Bool(true)));
    assert_eq!(ok(JsonType::Boolean, Json::string("false")), Ok(Json::Bool(false)));
    assert_eq!(
        ok(JsonType::Boolean, Json::string("True")),
        Err(type_error("p", "l", JsonType::Boolean))
    );
    assert_eq!(
        ok(JsonType::Boolean, Json::Integer(1)),
        Err(type_error("p", "l", JsonType::Boolean))
    );
    assert_eq!(ok(JsonType::Integer, Json::Unsigned(7)), Ok(Json::Integer(7)));
    assert_eq!(
        ok(JsonType::Integer, Json::Unsigned(u64::MAX)),
        Err(type_error("p", "l", JsonType::Integer))
    );
    assert_eq!(ok(JsonType::Unsigned, Json::Integer(7)), Ok(Json::Integer(7)));
    assert_eq!(
        ok(JsonType::Unsigned, Json::Integer(-7)),
        Err(type_error("p", "l", JsonType::Unsigned))
    );
    assert_eq!(ok(JsonType::String, Json::Bool(true)), Ok(Json::string("true")));
    assert_eq!(
        ok(JsonType::String, Json::Array(vec![])),
        Err(type_error("p", "l", JsonType::String))
    );
    assert_eq!(
        ok(JsonType::Array, Json::Array(vec![Json::Null])),
        Ok(Json::Array(vec![Json::Null]))
    );
    assert_eq!(
        ok(JsonType::Array, Json::Object(vec![])),
        Err(type_error("p", "l", JsonType::Array))
    );
    assert_eq!(ok(JsonType::Object, Json::Object(vec![])), Ok(Json::Object(vec![])));
    assert_eq!(
        ok(JsonType::Object, Json::Array(vec![])),
        Err(type_error("p", "l", JsonType::Object))
    );
    assert_eq!(ok(JsonType::Number, Json::string("x")), Ok(Json::string("x")));
    assert_eq!(ok(JsonType::Null, Json::Integer(1)), Ok(Json::Integer(1)));
    assert_eq!(ok(JsonType::Absent, Json::Null), Ok(Json::Null));
    assert_eq!(
        type_error("p", "l", JsonType::Unsigned).message(),
        "l must be of type `Unsigned Integer`."
    );
    assert_eq!(type_error("p", "l", JsonType::Unsigned).kind(), "type_error");
    assert_eq!(type_error("p", "l", JsonType::Unsigned).path(), "p");
}

#[test]
fn a_rule_holds_of_the_values_that_meet_it() {
    let items = |n: usize| Json::Array((0..n).map(|_| Json::Null).collect());
    assert!(Rule::Min(5).holds(&Json::Integer(5)));
    assert!(!Rule::Min(5).holds(&Json::Integer(4)));
    assert!(Rule::Min(5).holds(&Json::Unsigned(u64::MAX)));
    assert!(!Rule::Min(5).holds(&Json::string("9")));
    assert!(Rule::Max(5).holds(&Json::Integer(5)));
    assert!(!Rule::Max(5).holds(&Json::Integer(6)));
    assert!(Rule::GreaterThan(5).holds(&Json::Integer(6)));
    assert!(!Rule::GreaterThan(5).holds(&Json::Integer(5)));
    assert!(Rule::LessThan(5).holds(&Json::Integer(4)));
    assert!(!Rule::LessThan(5).holds(&Json::Integer(5)));
    assert!(Rule::LessThan(i128::from(u64::MAX) + 1).holds(&Json::Unsigned(u64::MAX)));
    assert!(Rule::NotOneOf(vec![1, 2]).holds(&Json::Integer(3)));
    assert!(!Rule::NotOneOf(vec![1, 2]).holds(&Json::Integer(2)));
    assert!(!Rule::NotOneOf(vec![]).holds(&Json::Null));
    assert!(Rule::Length(1, 2).holds(&Json::string("ab")));
    assert!(!Rule::Length(1, 2).holds(&Json::string("abc")));
    assert!(!Rule::Length(1, 2).holds(&Json::string("")));
    assert!(Rule::Length(1, 2).holds(&items(1)));
    assert!(!Rule::Length(1, 2).holds(&items(3)));
    assert!(!Rule::Length(0, 9).holds(&Json::Object(vec![])));
    assert!(Rule::MinLength(2).holds(&items(2)));
    assert!(!Rule::MinLength(2).holds(&Json::string("a")));
    assert!(Rule::MaxLength(2).holds(&Json::string("ab")));
    assert!(!Rule::MaxLength(2).holds(&items(3)));
    assert!(!Rule::MaxLength(2).holds(&Json::Integer(1)));
    let regex = Regex::new("b+").unwrap();
    assert!(Rule::Matches(regex.clone()).holds(&Json::string("abba")));
    assert!(!Rule::Matches(regex.clone()).holds(&Json::string("acca")));
    assert!(!Rule::Matches(regex).holds(&Json::Integer(1)));
}

#[test]
fn a_test_reports_the_value_that_fails_it() {
    let test = Test::new(
        "min",
        "<label> is too small, <label>!".to_string(),
        Rule::Min(3),
    );
    assert_eq!(test.check("a.b", "It", &Json::Integer(3)), Ok(()));
    assert_eq!(
        test.check("a.b", "It", &Json::Integer(2)),
        Err(test_error("min", "a.b", "It is too small, It!"))
    );
    let plain = Test::new("max", "no name here <label".to_string(), Rule::Max(3));
    assert_eq!(
        plain.check("", "It", &Json::Integer(4)),
        Err(test_error("max", "", "no name here <label"))
    );
}

#[test]
fn a_transform_changes_strings_and_nothing_else() {
    assert_eq!(Transform::Trim.apply(Json::string(" a ")), Json::string("a"));
    assert_eq!(Transform::Uppercase.apply(Json::string("aß")), Json::string("ASS"));
    assert_eq!(Transform::Lowercase.apply(Json::string("AB")), Json::string("ab"));
    assert_eq!(Transform::Trim.apply(Json::Integer(1)), Json::Integer(1));
    assert_eq!(
        Transform::Uppercase.apply(Json::Array(vec![Json::string("a")])),
        Json::Array(vec![Json::string("a")])
    );
}

fn run(
    validator: &Validator,
    path: &str,
    value: Option<Json>,
) -> Result<Option<Json>, Vec<ValidationError>> {
    let mut errors = vec![type_error("before", "before", JsonType::Null)];
    let result = validator.exec(path, value, &mut errors);
    assert_eq!(errors[0], type_error("before", "before", JsonType::Null));
    errors.remove(0);
    match result {
        Ok(value) => {
            assert!(errors.is_empty());
            Ok(value)
        }
        Err(()) => {
            assert!(!errors.is_empty());
            Err(errors)
        }
    }
}

#[test]
fn a_validator_takes_a_value_through_its_steps() {
    let mut validator = Validator::new(JsonType::String);
    assert_eq!(validator.jsontype(), JsonType::String);
    assert_eq!(
        run(&validator, "p", None),
        Err(vec![type_error("p", "p", JsonType::String)])
    );
    assert_eq!(
        run(&validator, "p", Some(Json::Null)),
        Err(vec![type_error("p", "p", JsonType::String)])
    );
    validator.add_transform(Transform::Trim);
    validator.add_transform(Transform::Uppercase);
    validator.add_test(
        "max_length",
        "<label> is too long".to_string(),
        Rule::MaxLength(2),
    );
    validator.add_test(
        "matches",
        "<label> has no A".to_string(),
        Rule::Matches(Regex::new("A").unwrap()),
    );
    assert_eq!(
        run(&validator, "p", Some(Json::string("  a "))),
        Ok(Some(Json::string("A")))
    );
    assert_eq!(
        run(&validator, "p", Some(Json::string(" bcd "))),
        Err(vec![
            test_error("max_length", "p", "p is too long"),
            test_error("matches", "p", "p has no A"),
        ])
    );
    let validator = validator.with_label("Name").with_description("A name.");
    assert_eq!(
        run(&validator, "p", Some(Json::string("b"))),
        Err(vec![test_error("matches", "p", "Name has no A")])
    );
    assert_eq!(
        run(&validator, "p", Some(Json::Bool(true))),
        Err(vec![
            test_error("max_length", "p", "Name is too long"),
            test_error("matches", "p", "Name has no A"),
        ])
    );
    let validator = validator.optional().nullable();
    assert_eq!(run(&validator, "p", None), Ok(None));
    assert_eq!(run(&validator, "p", Some(Json::Null)), Ok(Some(Json::Null)));
    assert_eq!(
        json_error(vec![]).errors().len(),
        0
    );
}

#[test]
fn documents_are_equal_if_their_values_are() {
    assert_eq!(Json::Integer(3), Json::Unsigned(3));
    assert_eq!(Json::Unsigned(3), Json::Integer(3));
    assert_eq!(Json::unsigned(u64::MAX), Json::Unsigned(u64::MAX));
    assert_ne!(Json::Integer(-1), Json::Unsigned(u64::MAX));
    assert_ne!(Json::Integer(3), Json::Integer(4));
    assert_ne!(Json::Integer(0), Json::Null);
    assert_ne!(Json::Bool(false), Json::Null);
    assert_ne!(Json::string("1"), Json::Integer(1));
    assert_eq!(Json::float(1.5f64.to_bits(), "1.5"), Json::float(1.5f64.to_bits(), "1.5"));
    assert_ne!(Json::float(1.5f64.to_bits(), "1.5"), Json::float(2.5f64.to_bits(), "2.5"));
    assert_ne!(Json::float(1.0f64.to_bits(), "1.0"), Json::Integer(1));
    assert_eq!(
        Json::Array(vec![Json::Integer(1), Json::string("a")]),
        Json::Array(vec![Json::Unsigned(1), Json::string("a")])
    );
    assert_ne!(
        Json::Array(vec![Json::Integer(1)]),
        Json::Array(vec![Json::Integer(1), Json::Null])
    );
    assert_ne!(
        Json::Array(vec![Json::Integer(1), Json::Integer(2)]),
        Json::Array(vec![Json::Integer(2), Json::Integer(1)])
    );
    let ab = Json::Object(vec![
        ("a".to_string(), Json::Integer(1)),
        ("b".to_string(), Json::Array(vec![Json::Null])),
    ]);
    let same = Json::Object(vec![
        ("a".to_string(), Json::Integer(1)),
        ("b".to_string(), Json::Array(vec![Json::Null])),
    ]);
    let ba = Json::Object(vec![
        ("b".to_string(), Json::Array(vec![Json::Null])),
        ("a".to_string(), Json::Integer(1)),
    ]);
    let other = Json::Object(vec![
        ("a".to_string(), Json::Integer(1)),
        ("c".to_string(), Json::Array(vec![Json::Null])),
    ]);
    assert!(ab.same(&same));
    assert_eq!(ab, same);
    assert_ne!(ab, ba);
    assert_ne!(ab, other);
    assert_ne!(ab, Json::Array(vec![]));
}
