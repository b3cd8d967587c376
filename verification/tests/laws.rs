use ok_schema::error::{json_error, type_error, ValidationError};
use ok_schema::json::{Json, JsonType};
use ok_schema::{array, boolean, integer, object, string, unsigned, OkSchema};

fn run<S: OkSchema>(schema: &S, value: Option<Json>) -> Result<Option<Json>, ValidationError> {
    let mut errors = vec![];
    match schema.validate_at("", value, &mut errors) {
        Ok(value) => Ok(value),
        Err(_) => Err(json_error(errors)),
    }
}

fn text(s: &str) -> Json {
    Json::string(s)
}

#[test]
fn an_absent_value_is_no_value_for_an_optional_schema() {
    assert_eq!(run(&boolean().optional(), None), Ok(None));
    assert_eq!(run(&integer().min(5).optional(), None), Ok(None));
    assert_eq!(run(&unsigned().optional(), None), Ok(None));
    assert_eq!(run(&string().min_length(5).optional(), None), Ok(None));
    assert_eq!(run(&array().of(integer()).optional(), None), Ok(None));
    assert_eq!(
        run(&object().integer("n", |field| field).optional(), None),
        Ok(None)
    );
}

#[test]
fn an_absent_value_is_a_type_error_for_a_schema_that_is_not_optional() {
    assert_eq!(
        run(&boolean(), None),
        Err(json_error(vec![type_error("", "", JsonType::Boolean)]))
    );
    assert_eq!(
        run(&integer().nullable(), None),
        Err(json_error(vec![type_error("", "", JsonType::Integer)]))
    );
    assert_eq!(
        run(&unsigned(), None),
        Err(json_error(vec![type_error("", "", JsonType::Unsigned)]))
    );
    assert_eq!(
        run(&string().label("Name"), None),
        Err(json_error(vec![type_error("", "Name", JsonType::String)]))
    );
    assert_eq!(
        run(&array().of(integer()), None),
        Err(json_error(vec![type_error("", "", JsonType::Array)]))
    );
    assert_eq!(
        run(&object().integer("n", |field| field), None),
        Err(json_error(vec![type_error("", "", JsonType::Object)]))
    );
}

#[test]
fn an_absent_field_is_left_out_or_reported() {
    let schema = object()
        .integer("a", |field| field.optional())
        .integer("b", |field| field);
    assert_eq!(
        schema.validate(Json::Object(vec![("b".to_string(), Json::Integer(1))])),
        Ok(Json::Object(vec![("b".to_string(), Json::Integer(1))]))
    );
    assert_eq!(
        schema.validate(Json::Object(vec![("a".to_string(), Json::Integer(1))])),
        Err(json_error(vec![type_error("b", "b", JsonType::Integer)]))
    );
}

#[test]
fn null_is_null_for_a_nullable_schema_whatever_its_tests() {
    assert_eq!(boolean().nullable().validate(Json::Null), Ok(Json::Null));
    assert_eq!(
        integer().min(5).nullable().validate(Json::Null),
        Ok(Json::Null)
    );
    assert_eq!(
        string().min_length(5).nullable().validate(Json::Null),
        Ok(Json::Null)
    );
    assert_eq!(
        string().trim().matches("^x$").nullable().validate(Json::Null),
        Ok(Json::Null)
    );
    assert_eq!(
        array().min_length(2).of(integer()).nullable().validate(Json::Null),
        Ok(Json::Null)
    );
    assert_eq!(
        object()
            .integer("n", |field| field)
            .nullable()
            .validate(Json::Null),
        Ok(Json::Null)
    );
}

#[test]
fn null_is_a_type_error_for_a_schema_that_is_not_nullable() {
    assert_eq!(
        boolean().optional().validate(Json::Null),
        Err(json_error(vec![type_error("", "", JsonType::Boolean)]))
    );
    assert_eq!(
        integer().validate(Json::Null),
        Err(json_error(vec![type_error("", "", JsonType::Integer)]))
    );
    assert_eq!(
        unsigned().validate(Json::Null),
        Err(json_error(vec![type_error("", "", JsonType::Unsigned)]))
    );
    assert_eq!(
        string().validate(Json::Null),
        Err(json_error(vec![type_error("", "", JsonType::String)]))
    );
    assert_eq!(
        array().validate(Json::Null),
        Err(json_error(vec![type_error("", "", JsonType::Array)]))
    );
    assert_eq!(
        object().validate(Json::Null),
        Err(json_error(vec![type_error("", "", JsonType::Object)]))
    );
}

#[test]
fn a_valid_value_is_valid_again_and_comes_out_as_itself() {
    let trimmed = string().trim();
    assert_eq!(trimmed.validate(text(" x ")), Ok(text("x")));
    assert_eq!(trimmed.validate(text("x")), Ok(text("x")));

    let number = integer().min(1);
    assert_eq!(number.validate(text("12")), Ok(Json::Integer(12)));
    assert_eq!(number.validate(Json::Integer(12)), Ok(Json::Integer(12)));

    let flag = boolean();
    assert_eq!(flag.validate(text("true")), Ok(Json::Bool(true)));
    assert_eq!(flag.validate(Json::Bool(true)), Ok(Json::Bool(true)));

    let words = string();
    assert_eq!(words.validate(Json::Integer(7)), Ok(text("7")));
    assert_eq!(words.validate(text("7")), Ok(text("7")));

    let schema = object()
        .string("name", |field| field.trim().uppercase().min_length(1))
        .array("scores", |field| field.max_length(3).of(unsigned()))
        .integer("age", |field| field.optional())
        .boolean("admin", |field| field.nullable());
    let given = Json::Object(vec![
        ("admin".to_string(), Json::Null),
        ("ignored".to_string(), Json::Bool(false)),
        (
            "scores".to_string(),
            Json::Array(vec![text("1"), Json::Integer(2)]),
        ),
        ("name".to_string(), text("  ada ")),
    ]);
    let first = schema.validate(given).unwrap();
    assert_eq!(
        first,
        Json::Object(vec![
            ("name".to_string(), text("ADA")),
            (
                "scores".to_string(),
                Json::Array(vec![Json::Integer(1), Json::Integer(2)]),
            ),
            ("admin".to_string(), Json::Null),
        ])
    );
    let again = Json::Object(vec![
        ("name".to_string(), text("ADA")),
        (
            "scores".to_string(),
            Json::Array(vec![Json::Integer(1), Json::Integer(2)]),
        ),
        ("admin".to_string(), Json::Null),
    ]);
    assert_eq!(schema.validate(again), Ok(first));
}

#[test]
fn integers_are_read_from_numbers_and_numerals() {
    let schema = integer();
    let one = 1.0f64;
    assert_eq!(schema.validate(Json::Integer(1)), Ok(Json::Integer(1)));
    assert_eq!(
        schema.validate(Json::float(one.to_bits(), "1.0")),
        Ok(Json::Integer(1))
    );
    assert_eq!(schema.validate(text("1")), Ok(Json::Integer(1)));
    let more = 1.1f64;
    assert_eq!(
        schema.validate(Json::float(more.to_bits(), "1.1")),
        Err(json_error(vec![type_error("", "", JsonType::Integer)]))
    );
    assert_eq!(
        schema.validate(text("abc")),
        Err(json_error(vec![type_error("", "", JsonType::Integer)]))
    );
}

#[test]
fn every_error_lies_at_the_path_of_the_value_or_below_it() {
    let schema = object()
        .string("name", |field| field.label("Name").min_length(3))
        .array("tags", |field| field.of(object().integer("id", |id| id.min(1))))
        .integer("age", |field| field);
    let given = Json::Object(vec![
        ("name".to_string(), text("ab")),
        (
            "tags".to_string(),
            Json::Array(vec![
                Json::Object(vec![("id".to_string(), Json::Integer(0))]),
                Json::Object(vec![]),
                Json::Integer(3),
            ]),
        ),
    ]);
    let mut errors = vec![];
    assert_eq!(
        schema.validate_at("root", Some(given), &mut errors),
        Err(())
    );
    let found: Vec<(&str, &str)> = errors.iter().map(|e| (e.path(), e.kind())).collect();
    assert_eq!(
        found,
        vec![
            ("root.name", "min_length"),
            ("root.tags[0].id", "min"),
            ("root.tags[1].id", "type_error"),
            ("root.tags[2]", "type_error"),
            ("root.age", "type_error"),
        ]
    );
    for error in &errors {
        assert!(error.path().starts_with("root"));
    }
    assert_eq!(errors[0].message(), "Name must be at least 3 characters long.");
    assert_eq!(errors[1].message(), "root.tags[0].id must be at least 1.");
}

#[test]
fn a_description_changes_nothing() {
    let plain = integer().min(2);
    let described = integer().min(2).desc("How many.");
    for value in [Json::Integer(1), Json::Integer(2), text("3"), text("x"), Json::Null] {
        let same = match &value {
            Json::Integer(i) => Json::Integer(*i),
            Json::String(s) => Json::string(s),
            _ => Json::Null,
        };
        assert_eq!(plain.validate(value), described.validate(same));
    }
}
