//! JSON documents, the kinds of value that a schema can ask for, and the
//! coercion of a document to such a kind.
use crate::binary64::{clamp, whole_signed, whole_unsigned, whole_value};
use crate::error::{type_error, type_error_view, ValidationError};
use crate::text::{
    integer_text, parse_signed, parse_unsigned, parsed_signed, parsed_unsigned,
};
use vstd::prelude::*;
use vstd::std_specs::cmp::PartialEqSpecImpl;

verus! {

/// A number with a fractional representation, carried as the 64 bits of its
/// binary encoding together with the numeral that it was written as.
#[derive(Debug, PartialEq)]
pub struct Float {
    /// The IEEE 754 encoding of the number.
    pub bits: u64,
    /// The decimal numeral of the number.
    pub text: String,
}

/// A JSON document.
///
/// An integer from the range of `i64` is an `Integer`; `Unsigned` holds the
/// integers above that range. The members of an object are kept in order.
/// Two documents are equal if they have the same value.
#[derive(Debug)]
pub enum Json {
    Null,
    Bool(bool),
    Integer(i64),
    Unsigned(u64),
    Float(Float),
    String(String),
    Array(Vec<Json>),
    Object(Vec<(String, Json)>),
}

/// The mathematical value of a JSON document.
pub enum JsonValue {
    Null,
    Bool(bool),
    Integer(int),
    Float { bits: u64, text: Seq<char> },
    String(Seq<char>),
    Array(Seq<JsonValue>),
    Object(Seq<(Seq<char>, JsonValue)>),
}

/// The value of a document.
pub open spec fn json_value(json: Json) -> JsonValue
    decreases json,
{
    match json {
        Json::Null => JsonValue::Null,
        Json::Bool(b) => JsonValue::Bool(b),
        Json::Integer(i) => JsonValue::Integer(i as int),
        Json::Unsigned(u) => JsonValue::Integer(u as int),
        Json::Float(f) => JsonValue::Float { bits: f.bits, text: f.text@ },
        Json::String(s) => JsonValue::String(s@),
        Json::Array(items) => JsonValue::Array(
            Seq::new(
                items@.len(),
                |i: int|
                    if 0 <= i < items@.len() {
                        json_value(items@[i])
                    } else {
                        arbitrary()
                    },
            ),
        ),
        Json::Object(members) => JsonValue::Object(
            Seq::new(
                members@.len(),
                |i: int|
                    if 0 <= i < members@.len() {
                        (members@[i].0@, json_value(members@[i].1))
                    } else {
                        arbitrary()
                    },
            ),
        ),
    }
}

impl View for Json {
    type V = JsonValue;

    open spec fn view(&self) -> JsonValue {
        json_value(*self)
    }
}

impl PartialEq for Json {
    fn eq(&self, other: &Json) -> (b: bool) {
        self.same(other)
    }
}

impl PartialEqSpecImpl for Json {
    open spec fn obeys_eq_spec() -> bool {
        true
    }

    open spec fn eq_spec(&self, other: &Json) -> bool {
        self@ == other@
    }
}

/// The values of a list of documents, in order.
pub open spec fn json_values(items: Seq<Json>) -> Seq<JsonValue> {
    Seq::new(items.len(), |i: int| items[i]@)
}

/// The keys and values of a list of members, in order.
pub open spec fn member_values(members: Seq<(String, Json)>) -> Seq<(Seq<char>, JsonValue)> {
    Seq::new(members.len(), |i: int| (members[i].0@, members[i].1@))
}

/// The value of an optional document.
pub open spec fn optional_value(value: Option<Json>) -> Option<JsonValue> {
    match value {
        Some(json) => Some(json@),
        None => None,
    }
}

/// The value of an array is the list of the values of its items.
pub proof fn lemma_array_value(items: Vec<Json>)
    ensures
        Json::Array(items)@ == JsonValue::Array(json_values(items@)),
{
    assert(Json::Array(items)@->Array_0 =~= json_values(items@));
}

/// The value of an object is the list of the keys and values of its members.
pub proof fn lemma_object_value(members: Vec<(String, Json)>)
    ensures
        Json::Object(members)@ == JsonValue::Object(member_values(members@)),
{
    assert(Json::Object(members)@->Object_0 =~= member_values(members@));
}

impl Json {
    /// Whether two documents have the same value: the same integer, however it
    /// is held, the same bits and numeral, the same text, or the same items or
    /// members in the same order.
    #[verifier::loop_isolation(false)]
    pub fn same(&self, other: &Json) -> (b: bool)
        ensures
            b == (self@ == other@),
        decreases self,
    {
        match (self, other) {
            (Json::Null, Json::Null) => true,
            (Json::Bool(a), Json::Bool(b)) => *a == *b,
            (Json::Integer(a), Json::Integer(b)) => *a == *b,
            (Json::Integer(a), Json::Unsigned(b)) => *a >= 0 && *a as u64 == *b,
            (Json::Unsigned(a), Json::Integer(b)) => *b >= 0 && *b as u64 == *a,
            (Json::Unsigned(a), Json::Unsigned(b)) => *a == *b,
            (Json::Float(a), Json::Float(b)) => a.bits == b.bits && a.text == b.text,
            (Json::String(a), Json::String(b)) => *a == *b,
            (Json::Array(a), Json::Array(b)) => {
                proof {
                    lemma_array_value(*a);
                    lemma_array_value(*b);
                }
                if a.len() != b.len() {
                    assert(json_values(a@).len() != json_values(b@).len());
                    return false;
                }
                let mut i: usize = 0;
                while i < a.len()
                    invariant
                        i <= a.len(),
                        a.len() == b.len(),
                        forall|k: int| 0 <= k < i ==> (#[trigger] a@[k])@ == b@[k]@,
                    decreases a.len() - i,
                {
                    if !a[i].same(&b[i]) {
                        assert(json_values(a@)[i as int] != json_values(b@)[i as int]);
                        return false;
                    }
                    i += 1;
                }
                assert(json_values(a@) =~= json_values(b@));
                true
            },
            (Json::Object(a), Json::Object(b)) => {
                proof {
                    lemma_object_value(*a);
                    lemma_object_value(*b);
                }
                if a.len() != b.len() {
                    assert(member_values(a@).len() != member_values(b@).len());
                    return false;
                }
                let mut i: usize = 0;
                while i < a.len()
                    invariant
                        i <= a.len(),
                        a.len() == b.len(),
                        forall|k: int|
                            0 <= k < i ==> (#[trigger] a@[k]).0@ == b@[k].0@ && a@[k].1@ == b@[k].1@,
                    decreases a.len() - i,
                {
                    if a[i].0 != b[i].0 || !a[i].1.same(&b[i].1) {
                        assert(member_values(a@)[i as int] != member_values(b@)[i as int]);
                        return false;
                    }
                    i += 1;
                }
                assert(member_values(a@) =~= member_values(b@));
                true
            },
            _ => false,
        }
    }

    /// The document for an unsigned integer.
    pub fn unsigned(value: u64) -> (json: Json)
        ensures
            json@ == JsonValue::Integer(value as int),
    {
        if value <= 0x7fff_ffff_ffff_ffff {
            Json::Integer(value as i64)
        } else {
            Json::Unsigned(value)
        }
    }

    /// The document for a text.
    pub fn string(text: &str) -> (json: Json)
        ensures
            json@ == JsonValue::String(text@),
    {
        Json::String(String::from_str(text))
    }

    /// The document for a number with a fractional representation, from the
    /// bits of its encoding and its numeral.
    pub fn float(bits: u64, text: &str) -> (json: Json)
        ensures
            json@ == (JsonValue::Float { bits, text: text@ }),
    {
        Json::Float(Float { bits, text: String::from_str(text) })
    }
}

/// The kinds of value: those that a schema can ask for, and those that only
/// describe what a document holds.
#[derive(Copy, Clone, Debug, PartialEq, Eq, Structural)]
pub enum JsonType {
    Array,
    Boolean,
    Float,
    Integer,
    Absent,
    Null,
    Number,
    Object,
    String,
    Unsigned,
}

/// The name of a kind, as messages show it.
pub open spec fn kind_name(json_type: JsonType) -> Seq<char> {
    match json_type {
        JsonType::Array => "Array"@,
        JsonType::Boolean => "Boolean"@,
        JsonType::Float => "Float"@,
        JsonType::Integer => "Integer"@,
        JsonType::Absent => "none"@,
        JsonType::Null => "null"@,
        JsonType::Number => "Number"@,
        JsonType::Object => "Object"@,
        JsonType::String => "String"@,
        JsonType::Unsigned => "Unsigned Integer"@,
    }
}

/// The kind of what an optional document holds.
pub open spec fn kind_of(value: Option<JsonValue>) -> JsonType {
    match value {
        Some(JsonValue::Array(_)) => JsonType::Array,
        Some(JsonValue::Bool(_)) => JsonType::Boolean,
        Some(JsonValue::Integer(_)) => JsonType::Number,
        Some(JsonValue::Float { .. }) => JsonType::Number,
        Some(JsonValue::Object(_)) => JsonType::Object,
        Some(JsonValue::String(_)) => JsonType::String,
        Some(JsonValue::Null) => JsonType::Null,
        None => JsonType::Absent,
    }
}

/// What coercing a document to a kind gives, or `None` where the document
/// cannot be read as a value of that kind.
///
/// - `Boolean` takes a boolean, and the strings `true` and `false`.
/// - `Integer` takes an integer in the range of `i64`, a whole fractional
///   number (brought into that range), and a string that is the numeral of
///   such an integer.
/// - `Unsigned` takes an integer from zero to the largest `u64`, a whole
///   fractional number that is not negative, and a string that is the numeral
///   of such an integer.
/// - `String` takes a string, and a boolean or a number as its text.
/// - `Array` and `Object` take only an array and an object.
/// - Every document passes unchanged for the other kinds.
pub open spec fn coerced(target: JsonType, json: JsonValue) -> Option<JsonValue> {
    match target {
        JsonType::Boolean => match json {
            JsonValue::Bool(_) => Some(json),
            JsonValue::String(s) => if s == "true"@ {
                Some(JsonValue::Bool(true))
            } else if s == "false"@ {
                Some(JsonValue::Bool(false))
            } else {
                None
            },
            _ => None,
        },
        JsonType::Integer => match json {
            JsonValue::Integer(i) => if i64::MIN <= i <= i64::MAX {
                Some(json)
            } else {
                None
            },
            JsonValue::Float { bits, .. } => match whole_value(bits) {
                Some(v) => Some(JsonValue::Integer(clamp(v, i64::MIN as int, i64::MAX as int))),
                None => None,
            },
            JsonValue::String(s) => match parsed_signed(s) {
                Some(v) => Some(JsonValue::Integer(v as int)),
                None => None,
            },
            _ => None,
        },
        JsonType::Unsigned => match json {
            JsonValue::Integer(i) => if 0 <= i <= u64::MAX {
                Some(json)
            } else {
                None
            },
            JsonValue::Float { bits, .. } => match whole_value(bits) {
                Some(v) => if v >= 0 {
                    Some(JsonValue::Integer(clamp(v, 0, u64::MAX as int)))
                } else {
                    None
                },
                None => None,
            },
            JsonValue::String(s) => match parsed_unsigned(s) {
                Some(v) => Some(JsonValue::Integer(v as int)),
                None => None,
            },
            _ => None,
        },
        JsonType::String => match json {
            JsonValue::String(_) => Some(json),
            JsonValue::Bool(b) => Some(
                JsonValue::String(
                    if b {
                        "true"@
                    } else {
                        "false"@
                    },
                ),
            ),
            JsonValue::Integer(i) => Some(JsonValue::String(integer_text(i))),
            JsonValue::Float { text, .. } => Some(JsonValue::String(text)),
            _ => None,
        },
        JsonType::Array => match json {
            JsonValue::Array(_) => Some(json),
            _ => None,
        },
        JsonType::Object => match json {
            JsonValue::Object(_) => Some(json),
            _ => None,
        },
        _ => Some(json),
    }
}

/// The text of an integer as `serde_json` writes a number: its `Display` for
/// `Number` prints an integer as its decimal numeral.
#[verifier::external_body]
fn signed_number_text(value: i64) -> (text: String)
    ensures
        text@ == integer_text(value as int),
{
    serde_json::Number::from(value).to_string()
}

/// The text of an unsigned integer as `serde_json` writes a number: its
/// `Display` for `Number` prints an integer as its decimal numeral.
#[verifier::external_body]
fn unsigned_number_text(value: u64) -> (text: String)
    ensures
        text@ == integer_text(value as int),
{
    serde_json::Number::from(value).to_string()
}

impl JsonType {
    /// The name of the kind, as messages show it.
    pub fn as_str(&self) -> (name: &'static str)
        ensures
            name@ == kind_name(*self),
    {
        match self {
            JsonType::Array => "Array",
            JsonType::Boolean => "Boolean",
            JsonType::Float => "Float",
            JsonType::Integer => "Integer",
            JsonType::Absent => "none",
            JsonType::Null => "null",
            JsonType::Number => "Number",
            JsonType::Object => "Object",
            JsonType::String => "String",
            JsonType::Unsigned => "Unsigned Integer",
        }
    }

    /// Coerces a document to this kind: the document as a value of the kind,
    /// or a type error at `path` that names `label`.
    ///
    /// Coercion to `Float` takes floating-point arithmetic, which this crate
    /// does not do.
    pub fn coerce(&self, path: &str, label: &str, json: Json) -> (r: Result<Json, ValidationError>)
        requires
            !(self is Float),
        ensures
            match coerced(*self, json@) {
                Some(v) => r matches Ok(j) && j@ == v,
                None => r matches Err(e) && e@ == type_error_view(path@, label@, *self),
            },
    {
        match self {
            JsonType::Boolean => match json {
                Json::Bool(b) => Ok(Json::Bool(b)),
                Json::String(s) => {
                    if s == String::from_str("true") {
                        Ok(Json::Bool(true))
                    } else if s == String::from_str("false") {
                        Ok(Json::Bool(false))
                    } else {
                        Err(type_error(path, label, JsonType::Boolean))
                    }
                },
                _ => Err(type_error(path, label, JsonType::Boolean)),
            },
            JsonType::Integer => match json {
                Json::Integer(i) => Ok(Json::Integer(i)),
                Json::Unsigned(u) => {
                    if u <= 0x7fff_ffff_ffff_ffff {
                        Ok(Json::Integer(u as i64))
                    } else {
                        Err(type_error(path, label, JsonType::Integer))
                    }
                },
                Json::Float(f) => match whole_signed(f.bits) {
                    Some(v) => Ok(Json::Integer(v)),
                    None => Err(type_error(path, label, JsonType::Integer)),
                },
                Json::String(s) => match parse_signed(s.as_str()) {
                    Some(v) => Ok(Json::Integer(v)),
                    None => Err(type_error(path, label, JsonType::Integer)),
                },
                _ => Err(type_error(path, label, JsonType::Integer)),
            },
            JsonType::Unsigned => match json {
                Json::Integer(i) => {
                    if i >= 0 {
                        Ok(Json::Integer(i))
                    } else {
                        Err(type_error(path, label, JsonType::Unsigned))
                    }
                },
                Json::Unsigned(u) => Ok(Json::unsigned(u)),
                Json::Float(f) => match whole_unsigned(f.bits) {
                    Some(v) => Ok(Json::unsigned(v)),
                    None => Err(type_error(path, label, JsonType::Unsigned)),
                },
                Json::String(s) => match parse_unsigned(s.as_str()) {
                    Some(v) => Ok(Json::unsigned(v)),
                    None => Err(type_error(path, label, JsonType::Unsigned)),
                },
                _ => Err(type_error(path, label, JsonType::Unsigned)),
            },
            JsonType::String => match json {
                Json::String(s) => Ok(Json::String(s)),
                Json::Bool(b) => Ok(
                    Json::string(
                        if b {
                            "true"
                        } else {
                            "false"
                        },
                    ),
                ),
                Json::Integer(i) => Ok(Json::String(signed_number_text(i))),
                Json::Unsigned(u) => Ok(Json::String(unsigned_number_text(u))),
                Json::Float(f) => Ok(Json::String(f.text)),
                _ => Err(type_error(path, label, JsonType::String)),
            },
            JsonType::Array => match json {
                Json::Array(items) => Ok(Json::Array(items)),
                _ => Err(type_error(path, label, JsonType::Array)),
            },
            JsonType::Object => match json {
                Json::Object(members) => Ok(Json::Object(members)),
                _ => Err(type_error(path, label, JsonType::Object)),
            },
            _ => Ok(json),
        }
    }
}

impl From<&Option<Json>> for JsonType {
    /// The kind of what an optional document holds.
    fn from(value: &Option<Json>) -> (json_type: JsonType) {
        match value {
            Some(json) => match json {
                Json::Array(_) => JsonType::Array,
                Json::Bool(_) => JsonType::Boolean,
                Json::Integer(_) => JsonType::Number,
                Json::Unsigned(_) => JsonType::Number,
                Json::Float(_) => JsonType::Number,
                Json::Object(_) => JsonType::Object,
                Json::String(_) => JsonType::String,
                Json::Null => JsonType::Null,
            },
            None => JsonType::Absent,
        }
    }
}

impl vstd::std_specs::convert::FromSpecImpl<&Option<Json>> for JsonType {
    open spec fn obeys_from_spec() -> bool {
        true
    }

    open spec fn from_spec(value: &Option<Json>) -> JsonType {
        kind_of(optional_value(*value))
    }
}

} // verus!
