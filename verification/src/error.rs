//! Validation errors: what went wrong, and where in the document.
use crate::json::{
    json_values, kind_name, lemma_array_value, lemma_object_value, member_values, Json, JsonType,
    JsonValue,
};
use crate::text::{decimal, integer_text};
use vstd::prelude::*;

verus! {

/// One failure, or a collection of failures, found while validating a
/// document.
#[derive(Debug, PartialEq)]
pub struct ValidationError {
    path: String,
    message: String,
    type_: &'static str,
    errors: Vec<ValidationError>,
}

/// The mathematical value of a [`ValidationError`].
pub struct ErrorView {
    /// Where in the document the failure lies, such as `user.tags[3]`.
    pub path: Seq<char>,
    /// The failure in words.
    pub message: Seq<char>,
    /// The kind of failure, such as `type_error` or `min_length`.
    pub type_: Seq<char>,
    /// The failures that this one collects.
    pub errors: Seq<ErrorView>,
}

/// The value of an error.
pub closed spec fn error_view(error: ValidationError) -> ErrorView
    decreases error,
{
    ErrorView {
        path: error.path@,
        message: error.message@,
        type_: error.type_@,
        errors: Seq::new(
            error.errors@.len(),
            |i: int|
                if 0 <= i < error.errors@.len() {
                    error_view(error.errors@[i])
                } else {
                    arbitrary()
                },
        ),
    }
}

impl View for ValidationError {
    type V = ErrorView;

    open spec fn view(&self) -> ErrorView {
        error_view(*self)
    }
}

/// The views of a list of errors, in order.
pub open spec fn error_views(errors: Seq<ValidationError>) -> Seq<ErrorView> {
    Seq::new(errors.len(), |i: int| errors[i]@)
}

/// The message of a type error.
pub open spec fn type_error_message(label: Seq<char>, json_type: JsonType) -> Seq<char> {
    label + " must be of type `"@ + kind_name(json_type) + "`."@
}

/// The error for a value that is not of the kind that its schema asks for.
pub open spec fn type_error_view(
    path: Seq<char>,
    label: Seq<char>,
    json_type: JsonType,
) -> ErrorView {
    ErrorView {
        path,
        message: type_error_message(label, json_type),
        type_: "type_error"@,
        errors: Seq::empty(),
    }
}

/// The error for a value that fails a test of kind `type_`.
pub open spec fn test_error_view(
    type_: Seq<char>,
    path: Seq<char>,
    message: Seq<char>,
) -> ErrorView {
    ErrorView { path, message, type_, errors: Seq::empty() }
}

/// The message of the error that collects `count` failures.
pub open spec fn json_error_message(count: nat) -> Seq<char> {
    integer_text(count as int) + " validation "@ + (if count == 1 {
        "error"@
    } else {
        "errors"@
    }) + " occurred."@
}

/// The error that collects all the failures found in one document.
pub open spec fn json_error_view(errors: Seq<ErrorView>) -> ErrorView {
    ErrorView {
        path: Seq::empty(),
        message: json_error_message(errors.len()),
        type_: "invalid_json"@,
        errors,
    }
}

/// An error as a document: an object with the members `path`, `message`,
/// `type` and `errors`, in this order, the last an array of the collected
/// errors as documents.
pub open spec fn error_json(error: ErrorView) -> JsonValue
    decreases error,
{
    JsonValue::Object(
        seq![
            ("path"@, JsonValue::String(error.path)),
            ("message"@, JsonValue::String(error.message)),
            ("type"@, JsonValue::String(error.type_)),
            (
                "errors"@,
                JsonValue::Array(
                    Seq::new(
                        error.errors.len(),
                        |i: int|
                            if 0 <= i < error.errors.len() {
                                error_json(error.errors[i])
                            } else {
                                arbitrary()
                            },
                    ),
                ),
            ),
        ],
    )
}

impl ValidationError {
    /// The error as a document.
    pub fn to_json(&self) -> (json: Json)
        ensures
            json@ == error_json(self@),
        decreases self,
    {
        let mut collected: Vec<Json> = Vec::new();
        let mut i: usize = 0;
        while i < self.errors.len()
            invariant
                i <= self.errors.len(),
                collected@.len() == i,
                forall|k: int|
                    0 <= k < i ==> (#[trigger] collected@[k])@ == error_json(self.errors@[k]@),
            decreases self.errors.len() - i,
        {
            collected.push(self.errors[i].to_json());
            i += 1;
        }
        let mut members: Vec<(String, Json)> = Vec::new();
        members.push((String::from_str("path"), Json::String(self.path.clone())));
        members.push((String::from_str("message"), Json::String(self.message.clone())));
        members.push((String::from_str("type"), Json::string(self.type_)));
        proof {
            lemma_array_value(collected);
            assert(json_values(collected@) =~= error_json(self@)->Object_0[3].1->Array_0);
        }
        members.push((String::from_str("errors"), Json::Array(collected)));
        proof {
            lemma_object_value(members);
            assert(member_values(members@) =~= error_json(self@)->Object_0);
        }
        Json::Object(members)
    }

    /// Where in the document the failure lies.
    pub fn path(&self) -> (path: &str)
        ensures
            path@ == self@.path,
    {
        self.path.as_str()
    }

    /// The failure in words.
    pub fn message(&self) -> (message: &str)
        ensures
            message@ == self@.message,
    {
        self.message.as_str()
    }

    /// The kind of failure.
    pub fn kind(&self) -> (kind: &'static str)
        ensures
            kind@ == self@.type_,
    {
        self.type_
    }

    /// The failures that this one collects.
    pub fn errors(&self) -> (errors: &Vec<ValidationError>)
        ensures
            error_views(errors@) == self@.errors,
    {
        assert(error_views(self.errors@) =~= self@.errors);
        &self.errors
    }
}

/// The error for a value at `path` that is not of the kind `json_type`.
pub fn type_error(path: &str, label: &str, json_type: JsonType) -> (error: ValidationError)
    ensures
        error@ == type_error_view(path@, label@, json_type),
{
    let message = String::from_str(label).concat(" must be of type `").concat(
        json_type.as_str(),
    ).concat("`.");
    let error = ValidationError {
        path: String::from_str(path),
        type_: "type_error",
        message,
        errors: Vec::new(),
    };
    assert(error@.errors =~= Seq::empty());
    error
}

/// The error for a value at `path` that fails a test of kind `type_`.
pub fn test_error(type_: &'static str, path: &str, message: &str) -> (error: ValidationError)
    ensures
        error@ == test_error_view(type_@, path@, message@),
{
    let error = ValidationError {
        type_,
        path: String::from_str(path),
        message: String::from_str(message),
        errors: Vec::new(),
    };
    assert(error@.errors =~= Seq::empty());
    error
}

/// The error that collects all the failures found in one document.
pub fn json_error(all_errors: Vec<ValidationError>) -> (error: ValidationError)
    ensures
        error@ == json_error_view(error_views(all_errors@)),
{
    let error_count = all_errors.len();
    let pluralized = if error_count == 1 {
        "error"
    } else {
        "errors"
    };
    let message = decimal(error_count as i128).concat(" validation ").concat(pluralized).concat(
        " occurred.",
    );
    let error = ValidationError {
        message,
        path: String::from_str(""),
        errors: all_errors,
        type_: "invalid_json",
    };
    proof {
        reveal_strlit("");
        assert(error@.path =~= Seq::empty());
        assert(error@.errors =~= error_views(all_errors@));
    }
    error
}

} // verus!
