//! The schema for arrays.
use crate::error::{error_views, ValidationError};
use crate::json::{json_values, lemma_array_value, Json, JsonType};
use crate::schema::{
    element_path, items_validation, new_array, schema_view, well_formed, with_test, OkSchema,
    Schema, SchemaView,
};
use crate::test::{Rule, RuleView, TestView};
use crate::text::{decimal, integer_text};
use crate::validator::Validator;
use vstd::prelude::*;

verus! {

/// A schema for an array, and for its items if a schema is set for them.
pub struct ArraySchema {
    validator: Validator,
    element_schema: Option<Box<Schema>>,
}

/// The value of an array schema.
pub closed spec fn array_view(schema: ArraySchema) -> SchemaView
    decreases schema,
{
    SchemaView::Array {
        validator: schema.validator@,
        element: match schema.element_schema {
            Some(child) => Some(Box::new(schema_view(*child))),
            None => None,
        },
    }
}

impl View for ArraySchema {
    type V = SchemaView;

    open spec fn view(&self) -> SchemaView {
        array_view(*self)
    }
}

/// The test that an array has from `min` to `max` items.
pub open spec fn array_length_test(min: nat, max: nat) -> TestView {
    TestView {
        type_: "length"@,
        message: "<label> must have length between "@ + integer_text(min as int) + " and "@
            + integer_text(max as int) + "."@,
        rule: RuleView::Length(min, max),
    }
}

/// The test that an array has at least `min` items.
pub open spec fn array_min_length_test(min: nat) -> TestView {
    TestView {
        type_: "min_length"@,
        message: "<label> must contain at least "@ + integer_text(min as int) + " elements."@,
        rule: RuleView::MinLength(min),
    }
}

/// The test that an array has at most `max` items.
pub open spec fn array_max_length_test(max: nat) -> TestView {
    TestView {
        type_: "max_length"@,
        message: "<label> may contain at most "@ + integer_text(max as int) + " elements."@,
        rule: RuleView::MaxLength(max),
    }
}

/// The array schema with `element` as the schema of its items.
pub open spec fn with_element(array: SchemaView, element: SchemaView) -> SchemaView {
    match array {
        SchemaView::Array { validator, .. } => SchemaView::Array {
            validator,
            element: Some(Box::new(element)),
        },
        other => other,
    }
}

impl ArraySchema {
    #[verifier::type_invariant]
    spec fn sound(&self) -> bool {
        well_formed(array_view(*self))
    }

    /// A schema for an array of any items.
    pub fn new() -> (schema: ArraySchema)
        ensures
            schema@ == new_array(),
            well_formed(schema@),
    {
        ArraySchema { validator: Validator::new(JsonType::Array), element_schema: None }
    }

    /// Asks for an array of `bounds.0` to `bounds.1` items.
    pub fn length(self, bounds: (usize, usize)) -> (schema: ArraySchema)
        ensures
            schema@ == with_test(self@, array_length_test(bounds.0 as nat, bounds.1 as nat)),
            well_formed(schema@),
    {
        proof {
            use_type_invariant(&self);
        }
        let message = String::from_str("<label> must have length between ").concat(
            decimal(bounds.0 as i128).as_str(),
        ).concat(" and ").concat(decimal(bounds.1 as i128).as_str()).concat(".");
        let mut validator = self.validator;
        validator.add_test("length", message, Rule::Length(bounds.0, bounds.1));
        ArraySchema { validator, element_schema: self.element_schema }
    }

    /// Asks for an array of at least `min` items.
    pub fn min_length(self, min: usize) -> (schema: ArraySchema)
        ensures
            schema@ == with_test(self@, array_min_length_test(min as nat)),
            well_formed(schema@),
    {
        proof {
            use_type_invariant(&self);
        }
        let message = String::from_str("<label> must contain at least ").concat(
            decimal(min as i128).as_str(),
        ).concat(" elements.");
        let mut validator = self.validator;
        validator.add_test("min_length", message, Rule::MinLength(min));
        ArraySchema { validator, element_schema: self.element_schema }
    }

    /// Asks for an array of at most `max` items.
    pub fn max_length(self, max: usize) -> (schema: ArraySchema)
        ensures
            schema@ == with_test(self@, array_max_length_test(max as nat)),
            well_formed(schema@),
    {
        proof {
            use_type_invariant(&self);
        }
        let message = String::from_str("<label> may contain at most ").concat(
            decimal(max as i128).as_str(),
        ).concat(" elements.");
        let mut validator = self.validator;
        validator.add_test("max_length", message, Rule::MaxLength(max));
        ArraySchema { validator, element_schema: self.element_schema }
    }

    /// Asks for every item of the array to meet `schema`.
    pub fn of<S: OkSchema>(self, schema: S) -> (r: ArraySchema)
        ensures
            r@ == with_element(self@, schema@),
            self@ is Array,
            well_formed(r@),
    {
        proof {
            use_type_invariant(&self);
        }
        ArraySchema {
            validator: self.validator,
            element_schema: Some(Box::new(schema.into_schema())),
        }
    }
}

/// The path of the item at `index` of the array at `path`.
fn item_path(path: &str, index: usize) -> (r: String)
    ensures
        r@ == element_path(path@, index as nat),
{
    let r = String::from_str(path).concat("[").concat(decimal(index as i128).as_str()).concat("]");
    proof {
        reveal_strlit("[");
        reveal_strlit("]");
        assert("["@ =~= seq!['[']);
        assert("]"@ =~= seq![']']);
    }
    r
}

impl OkSchema for ArraySchema {
    fn label(self, label: &'static str) -> (r: Self) {
        proof {
            use_type_invariant(&self);
        }
        ArraySchema {
            validator: self.validator.with_label(label),
            element_schema: self.element_schema,
        }
    }

    fn desc(self, description: &'static str) -> (r: Self) {
        proof {
            use_type_invariant(&self);
        }
        ArraySchema {
            validator: self.validator.with_description(description),
            element_schema: self.element_schema,
        }
    }

    fn optional(self) -> (r: Self) {
        proof {
            use_type_invariant(&self);
        }
        ArraySchema { validator: self.validator.optional(), element_schema: self.element_schema }
    }

    fn nullable(self) -> (r: Self) {
        proof {
            use_type_invariant(&self);
        }
        ArraySchema { validator: self.validator.nullable(), element_schema: self.element_schema }
    }

    fn validate_at(
        &self,
        path: &str,
        value: Option<Json>,
        all_errors: &mut Vec<ValidationError>,
    ) -> (r: Result<Option<Json>, ()>)
        decreases self, 0nat,
    {
        let ghost before = all_errors@;
        let validated = self.validator.exec(path, value, all_errors);
        let child: &Schema = match &self.element_schema {
            None => {
                return validated;
            },
            Some(child) => &**child,
        };
        let elements: Vec<Json> = match validated {
            Ok(Some(Json::Array(items))) => items,
            other => {
                return other;
            },
        };
        proof {
            lemma_array_value(elements);
        }
        let ghost items = json_values(elements@);
        let mut array: Vec<Json> = Vec::new();
        let mut failed = false;
        let count = elements.len();
        let mut index: usize = 0;
        for element in iter: elements
            invariant
                index == iter.index(),
                iter.seq() == elements@,
                count == elements@.len(),
                items == json_values(elements@),
                failed == (items_validation(child@, path@, items, index as nat).1.len() > 0),
                !failed ==> json_values(array@) == items_validation(
                    child@,
                    path@,
                    items,
                    index as nat,
                ).0,
                error_views(all_errors@) == error_views(before) + items_validation(
                    child@,
                    path@,
                    items,
                    index as nat,
                ).1,
                decreases_to!(self => child),
        {
            let at = item_path(path, index);
            let ghost sofar = array@;
            match child.validate_at(at.as_str(), Some(element), all_errors) {
                Ok(Some(validated)) => {
                    if !failed {
                        array.push(validated);
                        assert(json_values(array@) =~= json_values(sofar).push(validated@));
                    }
                },
                Ok(None) => {},
                Err(_) => {
                    failed = true;
                },
            }
            assert(index < elements@.len());
            index += 1;
        }
        if failed {
            Err(())
        } else {
            proof {
                lemma_array_value(array);
                assert(error_views(all_errors@) =~= error_views(before));
            }
            Ok(Some(Json::Array(array)))
        }
    }

    fn into_schema(self) -> (schema: Schema) {
        proof {
            use_type_invariant(&self);
        }
        Schema::Array(self)
    }
}

/// A schema for an array.
pub fn array() -> (schema: ArraySchema)
    ensures
        schema@ == new_array(),
        well_formed(schema@),
{
    ArraySchema::new()
}

} // verus!
