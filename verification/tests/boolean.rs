use ok_schema::boolean;
use ok_schema::error::{json_error, type_error};
use ok_schema::json::{Json, JsonType};
use ok_schema::OkSchema;

#[test]
fn it_validates_booleans() {
    let schema = boolean();
    assert_eq!(schema.validate(Json::Bool(true)), Ok(Json::Bool(true)));
    assert_eq!(schema.validate(Json::Bool(false)), Ok(Json::Bool(false)));
    assert_eq!(schema.validate(Json::string("true")), Ok(Json::Bool(true)));
    assert_eq!(schema.validate(Json::string("false")), Ok(Json::Bool(false)));
    assert_eq!(
        schema.validate(Json::Null),
        Err(json_error(vec![type_error("", "", JsonType::Boolean)]))
    );
    assert_eq!(
        schema.validate(Json::Array(vec![])),
        Err(json_error(vec![type_error("", "", JsonType::Boolean)]))
    );
    assert_eq!(
        schema.validate(Json::Integer(1)),
        Err(json_error(vec![type_error("", "", JsonType::Boolean)]))
    );
    assert_eq!(
        schema.validate(Json::Object(vec![])),
        Err(json_error(vec![type_error("", "", JsonType::Boolean)]))
    );
    assert_eq!(
        schema.validate(Json::string("foo")),
        Err(json_error(vec![type_error("", "", JsonType::Boolean)]))
    );
}
