//! The schema for strings.
use crate::error::ValidationError;
use crate::json::{Json, JsonType};
use crate::pattern::{regex_as_str, regex_new};
use crate::schema::{
    new_scalar, well_formed, with_test, with_transform, OkSchema, Schema, SchemaView,
};
use crate::test::{Rule, RuleView, TestView};
use crate::text::{decimal, integer_text};
use crate::validator::{Transform, Validator};
use regex::Regex;
use vstd::prelude::*;

verus! {

/// A schema for a string; a boolean or a number is taken as its text.
pub struct StringSchema {
    validator: Validator,
}

impl View for StringSchema {
    type V = SchemaView;

    closed spec fn view(&self) -> SchemaView {
        SchemaView::Scalar(self.validator@)
    }
}

/// The test that a string is from `min` to `max` bytes long.
pub open spec fn string_length_test(min: nat, max: nat) -> TestView {
    TestView {
        type_: "length"@,
        message: "<label> must be between "@ + integer_text(min as int) + " and "@ + integer_text(
            max as int,
        ) + " characters long."@,
        rule: RuleView::Length(min, max),
    }
}

/// The test that a string is at least `min` bytes long.
pub open spec fn string_min_length_test(min: nat) -> TestView {
    TestView {
        type_: "min_length"@,
        message: "<label> must be at least "@ + integer_text(min as int) + " characters long."@,
        rule: RuleView::MinLength(min),
    }
}

/// The test that a string is at most `max` bytes long.
pub open spec fn string_max_length_test(max: nat) -> TestView {
    TestView {
        type_: "max_length"@,
        message: "<label> must be at most "@ + integer_text(max as int) + " characters long."@,
        rule: RuleView::MaxLength(max),
    }
}

/// The test that an expression matches somewhere in a string.
pub open spec fn matches_test(regex: Regex) -> TestView {
    TestView {
        type_: "matches"@,
        message: "<label> must match the pattern '"@ + regex_as_str(regex) + "'."@,
        rule: RuleView::Matches(regex),
    }
}

impl StringSchema {
    #[verifier::type_invariant]
    spec fn sound(&self) -> bool {
        well_formed(self@)
    }

    /// A schema for a string.
    pub fn new() -> (schema: StringSchema)
        ensures
            schema@ == new_scalar(JsonType::String),
            well_formed(schema@),
    {
        StringSchema { validator: Validator::new(JsonType::String) }
    }

    /// Asks for a string of `bounds.0` to `bounds.1` bytes.
    pub fn length(self, bounds: (usize, usize)) -> (schema: StringSchema)
        ensures
            schema@ == with_test(self@, string_length_test(bounds.0 as nat, bounds.1 as nat)),
            well_formed(schema@),
    {
        let message = String::from_str("<label> must be between ").concat(
            decimal(bounds.0 as i128).as_str(),
        ).concat(" and ").concat(decimal(bounds.1 as i128).as_str()).concat(" characters long.");
        let mut validator = self.validator;
        validator.add_test("length", message, Rule::Length(bounds.0, bounds.1));
        StringSchema { validator }
    }

    /// Asks for a string of at least `min` bytes.
    pub fn min_length(self, min: usize) -> (schema: StringSchema)
        ensures
            schema@ == with_test(self@, string_min_length_test(min as nat)),
            well_formed(schema@),
    {
        let message = String::from_str("<label> must be at least ").concat(
            decimal(min as i128).as_str(),
        ).concat(" characters long.");
        let mut validator = self.validator;
        validator.add_test("min_length", message, Rule::MinLength(min));
        StringSchema { validator }
    }

    /// Asks for a string of at most `max` bytes.
    pub fn max_length(self, max: usize) -> (schema: StringSchema)
        ensures
            schema@ == with_test(self@, string_max_length_test(max as nat)),
            well_formed(schema@),
    {
        let message = String::from_str("<label> must be at most ").concat(
            decimal(max as i128).as_str(),
        ).concat(" characters long.");
        let mut validator = self.validator;
        validator.add_test("max_length", message, Rule::MaxLength(max));
        StringSchema { validator }
    }

    /// Asks for a string in which the expression that `pattern` compiles to
    /// finds a match. The pattern has to be one that compiles.
    pub fn matches(self, pattern: &str) -> (schema: StringSchema)
        requires
            regex_new(pattern@) is Ok,
        ensures
            schema@ == with_test(self@, matches_test(regex_new(pattern@)->Ok_0)),
            regex_as_str(regex_new(pattern@)->Ok_0) == pattern@,
            well_formed(schema@),
    {
        match Regex::new(pattern) {
            Ok(regex) => self.regex(regex),
            Err(_) => self,
        }
    }

    /// Asks for a string in which the expression that `pattern` compiles to
    /// finds a match, if the pattern compiles; gives the schema back
    /// unchanged, as an error, if it does not.
    pub fn try_matches(self, pattern: &str) -> (r: Result<StringSchema, StringSchema>)
        ensures
            match regex_new(pattern@) {
                Ok(regex) => r matches Ok(schema) && schema@ == with_test(self@, matches_test(regex))
                    && well_formed(schema@),
                Err(_) => r matches Err(schema) && schema == self,
            },
    {
        match Regex::new(pattern) {
            Ok(_) => Ok(self.matches(pattern)),
            Err(_) => Err(self),
        }
    }

    /// Asks for a string in which `regex` finds a match.
    pub fn regex(self, regex: Regex) -> (schema: StringSchema)
        ensures
            schema@ == with_test(self@, matches_test(regex)),
            well_formed(schema@),
    {
        let message = String::from_str("<label> must match the pattern '").concat(
            regex.as_str(),
        ).concat("'.");
        let mut validator = self.validator;
        validator.add_test("matches", message, Rule::Matches(regex));
        StringSchema { validator }
    }

    /// Removes leading and trailing white space before the tests.
    pub fn trim(self) -> (schema: StringSchema)
        ensures
            schema@ == with_transform(self@, Transform::Trim),
            well_formed(schema@),
    {
        let mut validator = self.validator;
        validator.add_transform(Transform::Trim);
        StringSchema { validator }
    }

    /// Turns the string into upper case before the tests.
    pub fn uppercase(self) -> (schema: StringSchema)
        ensures
            schema@ == with_transform(self@, Transform::Uppercase),
            well_formed(schema@),
    {
        let mut validator = self.validator;
        validator.add_transform(Transform::Uppercase);
        StringSchema { validator }
    }

    /// Turns the string into lower case before the tests.
    pub fn lowercase(self) -> (schema: StringSchema)
        ensures
            schema@ == with_transform(self@, Transform::Lowercase),
            well_formed(schema@),
    {
        let mut validator = self.validator;
        validator.add_transform(Transform::Lowercase);
        StringSchema { validator }
    }
}

impl OkSchema for StringSchema {
    fn label(self, label: &'static str) -> (r: Self) {
        StringSchema { validator: self.validator.with_label(label) }
    }

    fn desc(self, description: &'static str) -> (r: Self) {
        StringSchema { validator: self.validator.with_description(description) }
    }

    fn optional(self) -> (r: Self) {
        StringSchema { validator: self.validator.optional() }
    }

    fn nullable(self) -> (r: Self) {
        StringSchema { validator: self.validator.nullable() }
    }

    fn validate_at(
        &self,
        path: &str,
        value: Option<Json>,
        all_errors: &mut Vec<ValidationError>,
    ) -> (r: Result<Option<Json>, ()>) {
        self.validator.exec(path, value, all_errors)
    }

    fn into_schema(self) -> (schema: Schema) {
        proof {
            use_type_invariant(&self);
        }
        Schema::Scalar(self.validator)
    }
}

/// A schema for a string.
pub fn string() -> (schema: StringSchema)
    ensures
        schema@ == new_scalar(JsonType::String),
        well_formed(schema@),
{
    StringSchema::new()
}

} // verus!
