//! The validator: the settings of one schema, and the steps that take a
//! document through them.
use crate::error::{error_views, type_error, type_error_view, ErrorView, ValidationError};
use crate::json::{coerced, optional_value, Json, JsonType, JsonValue};
use crate::test::{test_outcome, Rule, Test, TestView};
use crate::text::{lowercase_of, to_lowercase, to_uppercase, trim, trimmed, uppercase_of};
use vstd::prelude::*;

verus! {

/// A normalisation of a string, applied after coercion and before the tests.
#[derive(Copy, Clone, Debug, PartialEq, Eq, Structural)]
pub enum Transform {
    /// Removes leading and trailing white space.
    Trim,
    /// Turns the string into upper case.
    Uppercase,
    /// Turns the string into lower case.
    Lowercase,
}

/// What a transform makes of a value: a string is normalised, any other value
/// is left as it is.
pub open spec fn apply_transform(transform: Transform, value: JsonValue) -> JsonValue {
    match value {
        JsonValue::String(s) => JsonValue::String(
            match transform {
                Transform::Trim => trimmed(s),
                Transform::Uppercase => uppercase_of(s),
                Transform::Lowercase => lowercase_of(s),
            },
        ),
        _ => value,
    }
}

/// What a list of transforms makes of a value, the first of them applied
/// first.
pub open spec fn apply_transforms(transforms: Seq<Transform>, value: JsonValue) -> JsonValue
    decreases transforms.len(),
{
    if transforms.len() == 0 {
        value
    } else {
        apply_transform(transforms.last(), apply_transforms(transforms.drop_last(), value))
    }
}

/// The errors of the tests that a value fails, in the order of the tests.
pub open spec fn failures(
    tests: Seq<TestView>,
    path: Seq<char>,
    label: Seq<char>,
    value: JsonValue,
) -> Seq<ErrorView>
    decreases tests.len(),
{
    if tests.len() == 0 {
        Seq::empty()
    } else {
        let earlier = failures(tests.drop_last(), path, label, value);
        match test_outcome(tests.last(), path, label, value) {
            Some(error) => earlier.push(error),
            None => earlier,
        }
    }
}

/// Whether values are coerced to a kind: the kinds that a schema can ask for.
pub open spec fn is_target(json_type: JsonType) -> bool {
    json_type is Boolean || json_type is Integer || json_type is Unsigned || json_type is String
        || json_type is Array || json_type is Object
}

impl Transform {
    /// Applies the transform to a value.
    pub fn apply(&self, value: Json) -> (r: Json)
        ensures
            r@ == apply_transform(*self, value@),
    {
        match value {
            Json::String(s) => Json::String(
                match self {
                    Transform::Trim => trim(s.as_str()),
                    Transform::Uppercase => to_uppercase(s.as_str()),
                    Transform::Lowercase => to_lowercase(s.as_str()),
                },
            ),
            other => other,
        }
    }
}

/// The settings of one schema: the kind of value it asks for, how it is named
/// in messages, whether the value may be absent or null, and the transforms
/// and tests that a value goes through.
pub struct Validator {
    pub(crate) jsontype_: JsonType,
    pub(crate) label: Option<&'static str>,
    pub(crate) description: Option<&'static str>,
    pub(crate) is_optional: bool,
    pub(crate) is_nullable: bool,
    pub(crate) tests: Vec<Test>,
    pub(crate) transforms: Vec<Transform>,
}

/// The mathematical value of a [`Validator`].
pub struct ValidatorView {
    /// The kind of value that the schema asks for.
    pub jsontype_: JsonType,
    /// The name of the value in messages; the path stands in if there is none.
    pub label: Option<Seq<char>>,
    /// What the value is for. Nothing is made of it in validation.
    pub description: Option<Seq<char>>,
    /// Whether the value may be absent.
    pub is_optional: bool,
    /// Whether the value may be null.
    pub is_nullable: bool,
    /// The tests, in the order in which they were added.
    pub tests: Seq<TestView>,
    /// The transforms, in the order in which they were added.
    pub transforms: Seq<Transform>,
}

/// The views of a list of tests, in order.
pub open spec fn test_views(tests: Seq<Test>) -> Seq<TestView> {
    Seq::new(tests.len(), |i: int| tests[i]@)
}

/// The view of an optional static text.
pub open spec fn optional_text(text: Option<&'static str>) -> Option<Seq<char>> {
    match text {
        Some(t) => Some(t@),
        None => None,
    }
}

impl View for Validator {
    type V = ValidatorView;

    closed spec fn view(&self) -> ValidatorView {
        ValidatorView {
            jsontype_: self.jsontype_,
            label: optional_text(self.label),
            description: optional_text(self.description),
            is_optional: self.is_optional,
            is_nullable: self.is_nullable,
            tests: test_views(self.tests@),
            transforms: self.transforms@,
        }
    }
}

/// The settings of a new validator for a kind.
pub open spec fn new_validator(jsontype_: JsonType) -> ValidatorView {
    ValidatorView {
        jsontype_,
        label: None,
        description: None,
        is_optional: false,
        is_nullable: false,
        tests: Seq::empty(),
        transforms: Seq::empty(),
    }
}

/// The name of a value in messages: the label if one is set, else the path.
pub open spec fn resolved_label(validator: ValidatorView, path: Seq<char>) -> Seq<char> {
    match validator.label {
        Some(label) => label,
        None => path,
    }
}

/// What a validator makes of an optional document at a path.
///
/// - An absent value gives no value if the schema is optional, else a type
///   error.
/// - Null gives null if the schema is nullable; nothing else is done to it.
/// - Otherwise the value is coerced to the kind of the schema, which may give
///   a type error; then the transforms are applied in order, and the result is
///   held to every test. If it meets them all it is the value; else the errors
///   of all the tests that it fails are given, in the order of the tests.
pub open spec fn validated(
    validator: ValidatorView,
    path: Seq<char>,
    value: Option<JsonValue>,
) -> Result<Option<JsonValue>, Seq<ErrorView>> {
    let label = resolved_label(validator, path);
    match value {
        None => if validator.is_optional {
            Ok(None)
        } else {
            Err(seq![type_error_view(path, label, validator.jsontype_)])
        },
        Some(json) => if json is Null && validator.is_nullable {
            Ok(Some(json))
        } else {
            match coerced(validator.jsontype_, json) {
                None => Err(seq![type_error_view(path, label, validator.jsontype_)]),
                Some(coerced) => {
                    let value = apply_transforms(validator.transforms, coerced);
                    let errors = failures(validator.tests, path, label, value);
                    if errors.len() == 0 {
                        Ok(Some(value))
                    } else {
                        Err(errors)
                    }
                },
            }
        },
    }
}

/// What a call that validates a document has to leave behind: on success the
/// value, with the list of errors as it was; on failure the errors, added to
/// the end of the list.
pub open spec fn reports(
    expected: Result<Option<JsonValue>, Seq<ErrorView>>,
    r: Result<Option<Json>, ()>,
    before: Seq<ValidationError>,
    after: Seq<ValidationError>,
) -> bool {
    match expected {
        Ok(value) => r matches Ok(json) && optional_value(json) == value && error_views(after)
            == error_views(before),
        Err(errors) => r is Err && error_views(after) == error_views(before) + errors,
    }
}

impl Validator {
    #[verifier::type_invariant]
    spec fn asks_for_a_target(&self) -> bool {
        is_target(self.jsontype_)
    }

    /// A validator for the kind `jsontype_`, with no label, no tests and no
    /// transforms, that takes neither an absent value nor null.
    pub fn new(jsontype_: JsonType) -> (validator: Validator)
        requires
            is_target(jsontype_),
        ensures
            validator@ == new_validator(jsontype_),
    {
        let validator = Validator {
            jsontype_,
            label: None,
            description: None,
            is_optional: false,
            is_nullable: false,
            tests: Vec::new(),
            transforms: Vec::new(),
        };
        assert(validator@.tests =~= Seq::empty());
        validator
    }

    /// The kind of value that the validator asks for.
    pub fn jsontype(&self) -> (jsontype_: JsonType)
        ensures
            jsontype_ == self@.jsontype_,
            is_target(jsontype_),
    {
        proof {
            use_type_invariant(self);
        }
        self.jsontype_
    }

    /// What the value is for, if the schema says so.
    pub fn description(&self) -> (description: Option<&'static str>)
        ensures
            optional_text(description) == self@.description,
    {
        self.description
    }

    /// The validator with a name for the value in messages.
    pub fn with_label(self, label: &'static str) -> (validator: Validator)
        ensures
            validator@ == (ValidatorView { label: Some(label@), ..self@ }),
            is_target(validator@.jsontype_),
    {
        proof {
            use_type_invariant(&self);
        }
        Validator { label: Some(label), ..self }
    }

    /// The validator with a description of the value.
    pub fn with_description(self, description: &'static str) -> (validator: Validator)
        ensures
            validator@ == (ValidatorView { description: Some(description@), ..self@ }),
            is_target(validator@.jsontype_),
    {
        proof {
            use_type_invariant(&self);
        }
        Validator { description: Some(description), ..self }
    }

    /// The validator, letting the value be absent.
    pub fn optional(self) -> (validator: Validator)
        ensures
            validator@ == (ValidatorView { is_optional: true, ..self@ }),
            is_target(validator@.jsontype_),
    {
        proof {
            use_type_invariant(&self);
        }
        Validator { is_optional: true, ..self }
    }

    /// The validator, letting the value be null.
    pub fn nullable(self) -> (validator: Validator)
        ensures
            validator@ == (ValidatorView { is_nullable: true, ..self@ }),
            is_target(validator@.jsontype_),
    {
        proof {
            use_type_invariant(&self);
        }
        Validator { is_nullable: true, ..self }
    }

    /// Adds a test after those that are there.
    pub fn add_test(&mut self, type_: &'static str, message: String, rule: Rule)
        ensures
            final(self)@ == (ValidatorView {
                tests: old(self)@.tests.push(
                    TestView { type_: type_@, message: message@, rule: rule@ },
                ),
                ..old(self)@
            }),
            is_target(final(self)@.jsontype_),
    {
        proof {
            use_type_invariant(&*self);
        }
        // The list is swapped out for the push, which may unwind while the
        // validator is borrowed.
        let mut tests: Vec<Test> = Vec::new();
        core::mem::swap(&mut self.tests, &mut tests);
        tests.push(Test::new(type_, message, rule));
        core::mem::swap(&mut self.tests, &mut tests);
        assert(test_views(self.tests@) =~= test_views(old(self).tests@).push(
            TestView { type_: type_@, message: message@, rule: rule@ },
        ));
    }

    /// Adds a transform after those that are there.
    pub fn add_transform(&mut self, transform: Transform)
        ensures
            final(self)@ == (ValidatorView {
                transforms: old(self)@.transforms.push(transform),
                ..old(self)@
            }),
            is_target(final(self)@.jsontype_),
    {
        proof {
            use_type_invariant(&*self);
        }
        let mut transforms: Vec<Transform> = Vec::new();
        core::mem::swap(&mut self.transforms, &mut transforms);
        transforms.push(transform);
        core::mem::swap(&mut self.transforms, &mut transforms);
    }

    /// Takes an optional document through the validator. The value comes
    /// back on success; on failure the errors are added to `all_errors`.
    pub fn exec(
        &self,
        path: &str,
        value: Option<Json>,
        all_errors: &mut Vec<ValidationError>,
    ) -> (r: Result<Option<Json>, ()>)
        ensures
            reports(
                validated(self@, path@, optional_value(value)),
                r,
                old(all_errors)@,
                final(all_errors)@,
            ),
    {
        proof {
            use_type_invariant(self);
        }
        let label: &str = match self.label {
            Some(label) => label,
            None => path,
        };
        let ghost before = all_errors@;
        match value {
            None => {
                if self.is_optional {
                    Ok(None)
                } else {
                    all_errors.push(type_error(path, label, self.jsontype_));
                    assert(error_views(all_errors@) =~= error_views(before) + seq![
                        type_error_view(path@, label@, self.jsontype_),
                    ]);
                    Err(())
                }
            },
            Some(json) => {
                let is_null = match &json {
                    Json::Null => true,
                    _ => false,
                };
                if is_null && self.is_nullable {
                    return Ok(Some(json));
                }
                match self.jsontype_.coerce(path, label, json) {
                    Err(error) => {
                        all_errors.push(error);
                        assert(error_views(all_errors@) =~= error_views(before) + seq![
                            type_error_view(path@, label@, self.jsontype_),
                        ]);
                        Err(())
                    },
                    Ok(coerced) => {
                        let ghost start = coerced@;
                        let mut value = coerced;
                        let mut i: usize = 0;
                        while i < self.transforms.len()
                            invariant
                                i <= self.transforms.len(),
                                value@ == apply_transforms(self.transforms@.take(i as int), start),
                            decreases self.transforms.len() - i,
                        {
                            proof {
                                let next = self.transforms@.take(i as int + 1);
                                assert(next.drop_last() =~= self.transforms@.take(i as int));
                                assert(next.last() == self.transforms@[i as int]);
                            }
                            value = self.transforms[i].apply(value);
                            i += 1;
                        }
                        proof {
                            assert(self.transforms@.take(i as int) =~= self.transforms@);
                        }
                        let ghost tests = test_views(self.tests@);
                        let mut failed = false;
                        let mut j: usize = 0;
                        while j < self.tests.len()
                            invariant
                                j <= self.tests.len(),
                                failed == (failures(tests.take(j as int), path@, label@, value@).len()
                                    > 0),
                                tests == test_views(self.tests@),
                                error_views(all_errors@) == error_views(before) + failures(
                                    tests.take(j as int),
                                    path@,
                                    label@,
                                    value@,
                                ),
                            decreases self.tests.len() - j,
                        {
                            proof {
                                let next = tests.take(j as int + 1);
                                assert(next.drop_last() =~= tests.take(j as int));
                                assert(next.last() == self.tests@[j as int]@);
                            }
                            let ghost earlier = all_errors@;
                            match self.tests[j].check(path, label, &value) {
                                Ok(_) => {},
                                Err(error) => {
                                    all_errors.push(error);
                                    failed = true;
                                    assert(error_views(all_errors@) =~= error_views(earlier).push(
                                        error@,
                                    ));
                                },
                            }
                            j += 1;
                        }
                        proof {
                            assert(tests.take(j as int) =~= tests);
                        }
                        if failed {
                            Err(())
                        } else {
                            assert(error_views(all_errors@) =~= error_views(before));
                            Ok(Some(value))
                        }
                    },
                }
            },
        }
    }
}

} // verus!
