//! The schema for booleans.
use crate::error::ValidationError;
use crate::json::{Json, JsonType};
use crate::schema::{new_scalar, well_formed, OkSchema, Schema, SchemaView};
use crate::validator::Validator;
use vstd::prelude::*;

verus! {

/// A schema for a boolean: `true`, `false`, or one of the strings `true` and
/// `false`.
pub struct BooleanSchema {
    validator: Validator,
}

impl View for BooleanSchema {
    type V = SchemaView;

    closed spec fn view(&self) -> SchemaView {
        SchemaView::Scalar(self.validator@)
    }
}

impl BooleanSchema {
    #[verifier::type_invariant]
    spec fn sound(&self) -> bool {
        well_formed(self@)
    }

    /// A schema for a boolean that is neither optional nor nullable.
    pub fn new() -> (schema: BooleanSchema)
        ensures
            schema@ == new_scalar(JsonType::Boolean),
            well_formed(schema@),
    {
        BooleanSchema { validator: Validator::new(JsonType::Boolean) }
    }
}

impl OkSchema for BooleanSchema {
    fn label(self, label: &'static str) -> (r: Self) {
        BooleanSchema { validator: self.validator.with_label(label) }
    }

    fn desc(self, description: &'static str) -> (r: Self) {
        BooleanSchema { validator: self.validator.with_description(description) }
    }

    fn optional(self) -> (r: Self) {
        BooleanSchema { validator: self.validator.optional() }
    }

    fn nullable(self) -> (r: Self) {
        BooleanSchema { validator: self.validator.nullable() }
    }

    fn validate_at(
        &self,
        path: &str,
        value: Option<Json>,
        all_errors: &mut Vec<ValidationError>,
    ) -> (r: Result<Option<Json>, ()>) {
        self.validator.exec(path, value, all_errors)
    }

    fn into_schema(self) -> (schema: Schema) {
        proof {
            use_type_invariant(&self);
        }
        Schema::Scalar(self.validator)
    }
}

/// A schema for a boolean.
pub fn boolean() -> (schema: BooleanSchema)
    ensures
        schema@ == new_scalar(JsonType::Boolean),
        well_formed(schema@),
{
    BooleanSchema::new()
}

} // verus!
