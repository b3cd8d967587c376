//! Schemas: what they are, what validating a document against one gives, and
//! the contract that every kind of schema meets.
use crate::array::{array_view, ArraySchema};
use crate::error::{error_views, json_error, json_error_view, ErrorView, ValidationError};
use crate::json::{optional_value, Json, JsonType, JsonValue};
use crate::object::{object_view, ObjectSchema};
use crate::test::TestView;
use crate::text::integer_text;
use crate::validator::{
    is_target, new_validator, reports, validated, Transform, Validator, ValidatorView,
};
use vstd::prelude::*;

verus! {

/// The mathematical value of a schema: a tree of validators.
pub enum SchemaView {
    /// A schema for a boolean, a number or a string.
    Scalar(ValidatorView),
    /// A schema for an array, with the schema of its items if one is set.
    Array { validator: ValidatorView, element: Option<Box<SchemaView>> },
    /// A schema for an object, with its fields in the order of declaration.
    Object { validator: ValidatorView, fields: Seq<(Seq<char>, SchemaView)> },
}

/// What validating a document gives: the value, which is absent where an
/// optional value was absent, or the errors found.
pub type Outcome = Result<Option<JsonValue>, Seq<ErrorView>>;

/// The outcome that is a value, or no value where none is asked for.
pub open spec fn accepted(value: Option<JsonValue>) -> Outcome {
    Ok(value)
}

/// The outcome that is a list of errors.
pub open spec fn rejected(errors: Seq<ErrorView>) -> Outcome {
    Err(errors)
}

/// A new schema for a boolean, a number or a string: no label, no tests, no
/// transforms, and neither optional nor nullable.
pub open spec fn new_scalar(jsontype_: JsonType) -> SchemaView {
    SchemaView::Scalar(new_validator(jsontype_))
}

/// A new schema for an array: of any items, with no label and no tests, and
/// neither optional nor nullable.
pub open spec fn new_array() -> SchemaView {
    SchemaView::Array { validator: new_validator(JsonType::Array), element: None }
}

/// A new schema for an object: with no declared fields, no label and no
/// tests, and neither optional nor nullable.
pub open spec fn new_object() -> SchemaView {
    SchemaView::Object { validator: new_validator(JsonType::Object), fields: Seq::empty() }
}

/// The validator of a schema.
pub open spec fn settings(schema: SchemaView) -> ValidatorView {
    match schema {
        SchemaView::Scalar(validator) => validator,
        SchemaView::Array { validator, .. } => validator,
        SchemaView::Object { validator, .. } => validator,
    }
}

/// The schema with another validator.
pub open spec fn with_settings(schema: SchemaView, validator: ValidatorView) -> SchemaView {
    match schema {
        SchemaView::Scalar(_) => SchemaView::Scalar(validator),
        SchemaView::Array { element, .. } => SchemaView::Array { validator, element },
        SchemaView::Object { fields, .. } => SchemaView::Object { validator, fields },
    }
}

/// The schema with a name for the value in messages.
pub open spec fn labelled(schema: SchemaView, label: Seq<char>) -> SchemaView {
    with_settings(schema, ValidatorView { label: Some(label), ..settings(schema) })
}

/// The schema with a description of the value.
pub open spec fn described(schema: SchemaView, description: Seq<char>) -> SchemaView {
    with_settings(schema, ValidatorView { description: Some(description), ..settings(schema) })
}

/// The schema, letting the value be absent.
pub open spec fn made_optional(schema: SchemaView) -> SchemaView {
    with_settings(schema, ValidatorView { is_optional: true, ..settings(schema) })
}

/// The schema, letting the value be null.
pub open spec fn made_nullable(schema: SchemaView) -> SchemaView {
    with_settings(schema, ValidatorView { is_nullable: true, ..settings(schema) })
}

/// The schema with one more test, after those that are there.
pub open spec fn with_test(schema: SchemaView, test: TestView) -> SchemaView {
    with_settings(
        schema,
        ValidatorView { tests: settings(schema).tests.push(test), ..settings(schema) },
    )
}

/// The schema with one more transform, after those that are there.
pub open spec fn with_transform(schema: SchemaView, transform: Transform) -> SchemaView {
    with_settings(
        schema,
        ValidatorView {
            transforms: settings(schema).transforms.push(transform),
            ..settings(schema)
        },
    )
}

/// The path of the item at `index` of the array at `path`.
pub open spec fn element_path(path: Seq<char>, index: nat) -> Seq<char> {
    path + seq!['['] + integer_text(index as int) + seq![']']
}

/// The path of the field `key` of the object at `path`.
pub open spec fn field_path(path: Seq<char>, key: Seq<char>) -> Seq<char> {
    if path.len() == 0 {
        key
    } else {
        path + seq!['.'] + key
    }
}

/// What validating a document against a schema gives.
///
/// The validator of the schema comes first. What it gives is the outcome,
/// unless it is an array or an object whose parts the schema describes:
///
/// - For an array with a schema for its items, every item is validated at
///   its own path. The outcome is the array of the items' values if no item
///   fails, else the errors of all that fail, in the order of the items.
/// - For an object with declared fields, every field is validated at its own
///   path, in the order of declaration, against the member of its name, or
///   against an absent value if there is none. The outcome is the object of
///   the fields that gave a value, in that order, if no field fails, else the
///   errors of all that fail. Members that no field declares are left out.
///
/// Null that a nullable schema lets through has no parts, and is the outcome
/// as it is.
pub open spec fn validation(
    schema: SchemaView,
    path: Seq<char>,
    value: Option<JsonValue>,
) -> Outcome
    decreases schema, 0nat,
{
    match schema {
        SchemaView::Scalar(validator) => validated(validator, path, value),
        SchemaView::Array { validator, element } => match validated(validator, path, value) {
            Ok(Some(JsonValue::Array(items))) => match element {
                Some(child) => {
                    let (values, errors) = items_validation(*child, path, items, items.len());
                    if errors.len() == 0 {
                        Ok(Some(JsonValue::Array(values)))
                    } else {
                        Err(errors)
                    }
                },
                None => Ok(Some(JsonValue::Array(items))),
            },
            outcome => outcome,
        },
        SchemaView::Object { validator, fields } => match validated(validator, path, value) {
            Ok(Some(JsonValue::Object(members))) => if fields.len() == 0 {
                Ok(Some(JsonValue::Object(members)))
            } else {
                let (output, errors) = fields_validation(fields, path, members, fields.len());
                if errors.len() == 0 {
                    Ok(Some(JsonValue::Object(output)))
                } else {
                    Err(errors)
                }
            },
            outcome => outcome,
        },
    }
}

/// The value of the first member named `key`, if there is one.
pub open spec fn lookup(members: Seq<(Seq<char>, JsonValue)>, key: Seq<char>) -> Option<JsonValue>
    decreases members.len(),
{
    if members.len() == 0 {
        None
    } else if members[0].0 == key {
        Some(members[0].1)
    } else {
        lookup(members.skip(1), key)
    }
}

/// The members and the errors that validating the first `count` fields of an
/// object gives. A field is validated against the value of the member of its
/// name, or against an absent value if there is no such member.
pub open spec fn fields_validation(
    fields: Seq<(Seq<char>, SchemaView)>,
    path: Seq<char>,
    members: Seq<(Seq<char>, JsonValue)>,
    count: nat,
) -> (Seq<(Seq<char>, JsonValue)>, Seq<ErrorView>)
    decreases fields, count + 1,
{
    if count == 0 || count > fields.len() {
        (Seq::empty(), Seq::empty())
    } else {
        let index = (count - 1) as nat;
        let (output, errors) = fields_validation(fields, path, members, index);
        let (key, child) = fields[index as int];
        match validation(child, field_path(path, key), lookup(members, key)) {
            Ok(Some(value)) => (output.push((key, value)), errors),
            Ok(None) => (output, errors),
            Err(found) => (output, errors + found),
        }
    }
}

/// The values and the errors that validating the first `count` items of an
/// array gives.
pub open spec fn items_validation(
    child: SchemaView,
    path: Seq<char>,
    items: Seq<JsonValue>,
    count: nat,
) -> (Seq<JsonValue>, Seq<ErrorView>)
    decreases child, count + 1,
{
    if count == 0 {
        (Seq::empty(), Seq::empty())
    } else {
        let index = (count - 1) as nat;
        let (values, errors) = items_validation(child, path, items, index);
        match validation(child, element_path(path, index), Some(items[index as int])) {
            Ok(Some(value)) => (values.push(value), errors),
            Ok(None) => (values, errors),
            Err(found) => (values, errors + found),
        }
    }
}

/// Where a value is given, validation that succeeds gives a value.
pub proof fn lemma_present_stays_present(schema: SchemaView, path: Seq<char>, value: JsonValue)
    ensures
        validation(schema, path, Some(value)) matches Ok(v) ==> v is Some,
{
}

/// Whether a schema is one that the constructors of this crate can build:
/// every validator in it asks for a kind that values are coerced to, and no
/// object has two fields of one name.
pub open spec fn well_formed(schema: SchemaView) -> bool
    decreases schema,
{
    match schema {
        SchemaView::Scalar(validator) => is_target(validator.jsontype_),
        SchemaView::Array { validator, element } => is_target(validator.jsontype_) && match element {
            Some(child) => well_formed(*child),
            None => true,
        },
        SchemaView::Object { validator, fields } => {
            &&& is_target(validator.jsontype_)
            &&& forall|i: int| 0 <= i < fields.len() ==> well_formed(#[trigger] fields[i].1)
            &&& forall|i: int, j: int|
                0 <= i < j < fields.len() ==> (#[trigger] fields[i]).0 != (#[trigger] fields[j]).0
        },
    }
}

/// A schema of any kind.
pub enum Schema {
    /// A schema for a boolean, a number or a string.
    Scalar(Validator),
    /// A schema for an array.
    Array(ArraySchema),
    /// A schema for an object.
    Object(ObjectSchema),
}

/// The value of a schema.
pub open spec fn schema_view(schema: Schema) -> SchemaView
    decreases schema,
{
    match schema {
        Schema::Scalar(validator) => SchemaView::Scalar(validator@),
        Schema::Array(s) => array_view(s),
        Schema::Object(s) => object_view(s),
    }
}

impl View for Schema {
    type V = SchemaView;

    open spec fn view(&self) -> SchemaView {
        schema_view(*self)
    }
}

/// What every kind of schema offers: its settings, and validation.
pub trait OkSchema: Sized + View<V = SchemaView> {
    /// Names the value in messages.
    fn label(self, label: &'static str) -> (r: Self)
        ensures
            r@ == labelled(self@, label@),
            well_formed(r@),
    ;

    /// Describes the value.
    fn desc(self, description: &'static str) -> (r: Self)
        ensures
            r@ == described(self@, description@),
            well_formed(r@),
    ;

    /// Lets the value be absent.
    fn optional(self) -> (r: Self)
        ensures
            r@ == made_optional(self@),
            well_formed(r@),
    ;

    /// Lets the value be null.
    fn nullable(self) -> (r: Self)
        ensures
            r@ == made_nullable(self@),
            well_formed(r@),
    ;

    /// Validates an optional document at `path`. The value comes back on
    /// success; on failure the errors are added to `all_errors`.
    fn validate_at(
        &self,
        path: &str,
        value: Option<Json>,
        all_errors: &mut Vec<ValidationError>,
    ) -> (r: Result<Option<Json>, ()>)
        ensures
            reports(
                validation(self@, path@, optional_value(value)),
                r,
                old(all_errors)@,
                final(all_errors)@,
            ),
    ;

    /// Validates a document: the value as the schema reads it, or one error
    /// that collects every failure found.
    fn validate(&self, json: Json) -> (r: Result<Json, ValidationError>)
        ensures
            match validation(self@, Seq::empty(), Some(json@)) {
                Ok(value) => r matches Ok(j) && value == Some(j@),
                Err(errors) => r matches Err(e) && e@ == json_error_view(errors),
            },
    {
        let mut errors: Vec<ValidationError> = Vec::new();
        proof {
            reveal_strlit("");
            assert(""@ =~= Seq::<char>::empty());
            lemma_present_stays_present(self@, Seq::empty(), json@);
            assert(error_views(errors@) =~= Seq::empty());
        }
        match self.validate_at("", Some(json), &mut errors) {
            Ok(value) => Ok(value.unwrap()),
            Err(_) => {
                proof {
                    let found = validation(self@, Seq::empty(), Some(json@))->Err_0;
                    assert(Seq::<ErrorView>::empty() + found =~= found);
                }
                Err(json_error(errors))
            },
        }
    }

    /// The schema as a value of the type that holds every kind.
    fn into_schema(self) -> (schema: Schema)
        ensures
            schema@ == self@,
            well_formed(schema@),
    ;
}

impl OkSchema for Schema {
    fn label(self, label: &'static str) -> (r: Self) {
        match self {
            Schema::Scalar(validator) => Schema::Scalar(validator.with_label(label)),
            Schema::Array(schema) => Schema::Array(schema.label(label)),
            Schema::Object(schema) => Schema::Object(schema.label(label)),
        }
    }

    fn desc(self, description: &'static str) -> (r: Self) {
        match self {
            Schema::Scalar(validator) => Schema::Scalar(validator.with_description(description)),
            Schema::Array(schema) => Schema::Array(schema.desc(description)),
            Schema::Object(schema) => Schema::Object(schema.desc(description)),
        }
    }

    fn optional(self) -> (r: Self) {
        match self {
            Schema::Scalar(validator) => Schema::Scalar(validator.optional()),
            Schema::Array(schema) => Schema::Array(schema.optional()),
            Schema::Object(schema) => Schema::Object(schema.optional()),
        }
    }

    fn nullable(self) -> (r: Self) {
        match self {
            Schema::Scalar(validator) => Schema::Scalar(validator.nullable()),
            Schema::Array(schema) => Schema::Array(schema.nullable()),
            Schema::Object(schema) => Schema::Object(schema.nullable()),
        }
    }

    fn validate_at(
        &self,
        path: &str,
        value: Option<Json>,
        all_errors: &mut Vec<ValidationError>,
    ) -> (r: Result<Option<Json>, ()>)
        decreases self, 1nat,
    {
        match self {
            Schema::Scalar(validator) => validator.exec(path, value, all_errors),
            Schema::Array(schema) => schema.validate_at(path, value, all_errors),
            Schema::Object(schema) => schema.validate_at(path, value, all_errors),
        }
    }

    fn into_schema(self) -> (schema: Schema) {
        match self {
            Schema::Scalar(validator) => {
                let _ = validator.jsontype();
                Schema::Scalar(validator)
            },
            Schema::Array(schema) => schema.into_schema(),
            Schema::Object(schema) => schema.into_schema(),
        }
    }
}

} // verus!
