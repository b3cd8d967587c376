//! The schema for objects.
use crate::array::ArraySchema;
use crate::boolean::BooleanSchema;
use crate::number::NumberSchema;
use crate::string::StringSchema;
use crate::error::{error_views, ValidationError};
use crate::json::{lemma_object_value, member_values, optional_value, Json, JsonType, JsonValue};
use crate::schema::{
    field_path, fields_validation, lookup, new_array, new_object, new_scalar, schema_view,
    well_formed, OkSchema, Schema, SchemaView,
};
use crate::validator::Validator;
use vstd::prelude::*;

verus! {

/// A schema for an object, and for the fields that it declares. A name is
/// declared once: declaring it again replaces its schema.
pub struct ObjectSchema {
    validator: Validator,
    property_schemas: Vec<(String, Schema)>,
}

/// The value of an object schema.
pub closed spec fn object_view(schema: ObjectSchema) -> SchemaView
    decreases schema,
{
    SchemaView::Object {
        validator: schema.validator@,
        fields: Seq::new(
            schema.property_schemas@.len(),
            |i: int|
                if 0 <= i < schema.property_schemas@.len() {
                    (schema.property_schemas@[i].0@, schema_view(schema.property_schemas@[i].1))
                } else {
                    arbitrary()
                },
        ),
    }
}

impl View for ObjectSchema {
    type V = SchemaView;

    open spec fn view(&self) -> SchemaView {
        object_view(*self)
    }
}

/// The names and values of a list of fields, in order.
pub open spec fn field_views(fields: Seq<(String, Schema)>) -> Seq<(Seq<char>, SchemaView)> {
    Seq::new(fields.len(), |i: int| (fields[i].0@, fields[i].1@))
}

/// Whether a field named `key` is among `fields`.
pub open spec fn has_field(fields: Seq<(Seq<char>, SchemaView)>, key: Seq<char>) -> bool {
    exists|i: int| 0 <= i < fields.len() && (#[trigger] fields[i]).0 == key
}

/// The place of a field named `key` among `fields`.
pub open spec fn field_index(fields: Seq<(Seq<char>, SchemaView)>, key: Seq<char>) -> int {
    choose|i: int| 0 <= i < fields.len() && (#[trigger] fields[i]).0 == key
}

/// The fields with `schema` declared for `key`: in the place of the schema
/// that was declared for that name, or after all fields if there was none.
pub open spec fn with_field(
    fields: Seq<(Seq<char>, SchemaView)>,
    key: Seq<char>,
    schema: SchemaView,
) -> Seq<(Seq<char>, SchemaView)> {
    if has_field(fields, key) {
        fields.update(field_index(fields, key), (key, schema))
    } else {
        fields.push((key, schema))
    }
}

/// The object schema with `schema` declared for `key`.
pub open spec fn with_key(object: SchemaView, key: Seq<char>, schema: SchemaView) -> SchemaView {
    match object {
        SchemaView::Object { validator, fields } => SchemaView::Object {
            validator,
            fields: with_field(fields, key, schema),
        },
        other => other,
    }
}

/// The members without the first one named `key`.
pub open spec fn without_first(members: Seq<(Seq<char>, JsonValue)>, key: Seq<char>) -> Seq<
    (Seq<char>, JsonValue),
>
    decreases members.len(),
{
    if members.len() == 0 {
        members
    } else if members[0].0 == key {
        members.skip(1)
    } else {
        seq![members[0]] + without_first(members.skip(1), key)
    }
}

/// Taking out the first member of one name leaves the members of every other
/// name to be found as before.
pub proof fn lemma_lookup_without_first(
    members: Seq<(Seq<char>, JsonValue)>,
    taken: Seq<char>,
    key: Seq<char>,
)
    requires
        taken != key,
    ensures
        lookup(without_first(members, taken), key) == lookup(members, key),
    decreases members.len(),
{
    if members.len() == 0 {
    } else if members[0].0 == taken {
    } else {
        lemma_lookup_without_first(members.skip(1), taken, key);
        let rest = without_first(members.skip(1), taken);
        let all = seq![members[0]] + rest;
        assert(all.skip(1) =~= rest);
        assert(all[0] == members[0]);
    }
}

/// Takes the first member named `key` out of `members` and returns its value.
fn take_member(members: &mut Vec<(String, Json)>, key: &String) -> (r: Option<Json>)
    ensures
        optional_value(r) == lookup(member_values(old(members)@), key@),
        member_values(final(members)@) == without_first(member_values(old(members)@), key@),
{
    let ghost all = member_values(members@);
    proof {
        assert(all.skip(0) =~= all);
        assert(all.take(0) + without_first(all, key@) =~= without_first(all, key@));
    }
    let mut i: usize = 0;
    while i < members.len()
        invariant
            i <= members.len(),
            *members == *old(members),
            all == member_values(members@),
            lookup(all, key@) == lookup(all.skip(i as int), key@),
            without_first(all, key@) == all.take(i as int) + without_first(all.skip(i as int), key@),
        decreases members.len() - i,
    {
        let ghost rest = all.skip(i as int);
        proof {
            assert(rest[0] == all[i as int]);
            assert(rest.skip(1) =~= all.skip(i as int + 1));
        }
        if members[i].0 == *key {
            let pair = members.remove(i);
            proof {
                assert(member_values(members@) =~= all.take(i as int) + rest.skip(1));
            }
            return Some(pair.1);
        }
        proof {
            assert(all.take(i as int) + (seq![rest[0]] + without_first(rest.skip(1), key@))
                =~= all.take(i as int + 1) + without_first(all.skip(i as int + 1), key@));
        }
        i += 1;
    }
    proof {
        assert(all.take(i as int) + without_first(all.skip(i as int), key@) =~= all);
    }
    None
}

/// The path of the field `key` of the object at `path`.
fn member_path(path: &str, key: &String) -> (r: String)
    ensures
        r@ == field_path(path@, key@),
{
    if path.is_empty() {
        key.clone()
    } else {
        let r = String::from_str(path).concat(".").concat(key.as_str());
        proof {
            reveal_strlit(".");
            assert("."@ =~= seq!['.']);
        }
        r
    }
}

impl ObjectSchema {
    #[verifier::type_invariant]
    spec fn sound(&self) -> bool {
        well_formed(object_view(*self))
    }

    /// A schema for an object of any members.
    pub fn new() -> (schema: ObjectSchema)
        ensures
            schema@ == new_object(),
            well_formed(schema@),
    {
        let schema = ObjectSchema {
            property_schemas: Vec::new(),
            validator: Validator::new(JsonType::Object),
        };
        assert(object_view(schema)->Object_fields =~= Seq::empty());
        schema
    }

    /// Declares the field `key`, to be validated against `schema`.
    pub fn key<S: OkSchema>(self, key: &str, schema: S) -> (r: ObjectSchema)
        ensures
            r@ == with_key(self@, key@, schema@),
            self@ is Object,
            well_formed(r@),
    {
        proof {
            use_type_invariant(&self);
        }
        let ghost before = self@->Object_fields;
        let name = String::from_str(key);
        let child = schema.into_schema();
        let validator = self.validator;
        let mut fields = self.property_schemas;
        assert(field_views(fields@) =~= before);
        let mut i: usize = 0;
        while i < fields.len()
            invariant
                i <= fields.len(),
                fields == self.property_schemas,
                field_views(fields@) == before,
                name@ == key@,
                child@ == schema@,
                well_formed(schema@),
                well_formed(SchemaView::Object { validator: validator@, fields: before }),
                self@ == (SchemaView::Object { validator: validator@, fields: before }),
                forall|j: int| 0 <= j < i ==> (#[trigger] before[j]).0 != name@,
            decreases fields.len() - i,
        {
            if fields[i].0 == name {
                assert(before[i as int].0 == key@);
                fields.remove(i);
                fields.insert(i, (name, child));
                proof {
                    assert(forall|a: int, b: int|
                        0 <= a < b < before.len() ==> (#[trigger] before[a]).0 != (
                        #[trigger] before[b]).0);
                    assert(has_field(before, key@));
                    let found = field_index(before, key@);
                    if found < i {
                        assert(before[found].0 != before[i as int].0);
                    } else if found > i {
                        assert(before[i as int].0 != before[found].0);
                    }
                    let after = before.update(i as int, (key@, schema@));
                    assert(field_views(fields@) =~= after);
                    assert forall|j: int| 0 <= j < after.len() implies well_formed(
                        #[trigger] after[j].1,
                    ) by {
                        if j != i {
                            assert(well_formed(before[j].1));
                        }
                    }
                    assert forall|j: int, k: int| 0 <= j < k < after.len() implies (
                    #[trigger] after[j]).0 != (#[trigger] after[k]).0 by {
                        assert(after[j].0 == before[j].0);
                        assert(after[k].0 == before[k].0);
                    }
                    let made = ObjectSchema { validator, property_schemas: fields };
                    assert(object_view(made)->Object_fields =~= after);
                    assert(found == i);
                    assert(with_field(before, key@, schema@) == after);
                }
                return ObjectSchema { validator, property_schemas: fields };
            }
            i += 1;
        }
        fields.push((name, child));
        proof {
            assert(!has_field(before, key@));
            let after = before.push((key@, schema@));
            assert(field_views(fields@) =~= after);
            assert forall|j: int| 0 <= j < after.len() implies well_formed(#[trigger] after[j].1) by {
                if j < before.len() {
                    assert(well_formed(before[j].1));
                }
            }
            assert forall|j: int, k: int| 0 <= j < k < after.len() implies (#[trigger] after[j]).0 != (
            #[trigger] after[k]).0 by {
                if k < before.len() {
                    assert(before[j].0 != before[k].0);
                } else {
                    assert(before[j].0 != key@);
                }
            }
            let made = ObjectSchema { validator, property_schemas: fields };
            assert(object_view(made)->Object_fields =~= after);
        }
        ObjectSchema { validator, property_schemas: fields }
    }
}

impl ObjectSchema {
    /// Declares the field `key` for a boolean: `build` is given a new schema of
    /// that kind, and what it returns is the schema of the field.
    pub fn boolean<F: FnOnce(BooleanSchema) -> BooleanSchema>(
        self,
        key: &str,
        build: F,
    ) -> (r: ObjectSchema)
        requires
            forall|base: BooleanSchema|
                base@ == new_scalar(JsonType::Boolean) ==> call_requires(build, (base,)),
        ensures
            exists|base: BooleanSchema, child: BooleanSchema|
                {
                    &&& base@ == new_scalar(JsonType::Boolean)
                    &&& call_ensures(build, (base,), child)
                    &&& r@ == with_key(self@, key@, child@)
                },
            well_formed(r@),
    {
        self.key(key, build(BooleanSchema::new()))
    }

    /// Declares the field `key` for an integer in the range of `i64`: `build`
    /// is given a new schema of that kind, and what it returns is the schema of
    /// the field.
    pub fn integer<F: FnOnce(NumberSchema<i64>) -> NumberSchema<i64>>(
        self,
        key: &str,
        build: F,
    ) -> (r: ObjectSchema)
        requires
            forall|base: NumberSchema<i64>|
                base@ == new_scalar(JsonType::Integer) ==> call_requires(build, (base,)),
        ensures
            exists|base: NumberSchema<i64>, child: NumberSchema<i64>|
                {
                    &&& base@ == new_scalar(JsonType::Integer)
                    &&& call_ensures(build, (base,), child)
                    &&& r@ == with_key(self@, key@, child@)
                },
            well_formed(r@),
    {
        self.key(key, build(NumberSchema::new(JsonType::Integer)))
    }

    /// Declares the field `key` for an integer in the range of `u64`: `build`
    /// is given a new schema of that kind, and what it returns is the schema of
    /// the field.
    pub fn unsigned<F: FnOnce(NumberSchema<u64>) -> NumberSchema<u64>>(
        self,
        key: &str,
        build: F,
    ) -> (r: ObjectSchema)
        requires
            forall|base: NumberSchema<u64>|
                base@ == new_scalar(JsonType::Unsigned) ==> call_requires(build, (base,)),
        ensures
            exists|base: NumberSchema<u64>, child: NumberSchema<u64>|
                {
                    &&& base@ == new_scalar(JsonType::Unsigned)
                    &&& call_ensures(build, (base,), child)
                    &&& r@ == with_key(self@, key@, child@)
                },
            well_formed(r@),
    {
        self.key(key, build(NumberSchema::new(JsonType::Unsigned)))
    }

    /// Declares the field `key` for a string: `build` is given a new schema of
    /// that kind, and what it returns is the schema of the field.
    pub fn string<F: FnOnce(StringSchema) -> StringSchema>(
        self,
        key: &str,
        build: F,
    ) -> (r: ObjectSchema)
        requires
            forall|base: StringSchema|
                base@ == new_scalar(JsonType::String) ==> call_requires(build, (base,)),
        ensures
            exists|base: StringSchema, child: StringSchema|
                {
                    &&& base@ == new_scalar(JsonType::String)
                    &&& call_ensures(build, (base,), child)
                    &&& r@ == with_key(self@, key@, child@)
                },
            well_formed(r@),
    {
        self.key(key, build(StringSchema::new()))
    }

    /// Declares the field `key` for an object: `build` is given a new schema of
    /// that kind, and what it returns is the schema of the field.
    pub fn object<F: FnOnce(ObjectSchema) -> ObjectSchema>(
        self,
        key: &str,
        build: F,
    ) -> (r: ObjectSchema)
        requires
            forall|base: ObjectSchema|
                base@ == new_object() ==> call_requires(build, (base,)),
        ensures
            exists|base: ObjectSchema, child: ObjectSchema|
                {
                    &&& base@ == new_object()
                    &&& call_ensures(build, (base,), child)
                    &&& r@ == with_key(self@, key@, child@)
                },
            well_formed(r@),
    {
        self.key(key, build(ObjectSchema::new()))
    }

    /// Declares the field `key` for an array: `build` is given a new schema of
    /// that kind, and what it returns is the schema of the field.
    pub fn array<F: FnOnce(ArraySchema) -> ArraySchema>(
        self,
        key: &str,
        build: F,
    ) -> (r: ObjectSchema)
        requires
            forall|base: ArraySchema|
                base@ == new_array() ==> call_requires(build, (base,)),
        ensures
            exists|base: ArraySchema, child: ArraySchema|
                {
                    &&& base@ == new_array()
                    &&& call_ensures(build, (base,), child)
                    &&& r@ == with_key(self@, key@, child@)
                },
            well_formed(r@),
    {
        self.key(key, build(ArraySchema::new()))
    }
}

impl OkSchema for ObjectSchema {
    fn label(self, label: &'static str) -> (r: Self) {
        proof {
            use_type_invariant(&self);
        }
        ObjectSchema {
            validator: self.validator.with_label(label),
            property_schemas: self.property_schemas,
        }
    }

    fn desc(self, description: &'static str) -> (r: Self) {
        proof {
            use_type_invariant(&self);
        }
        ObjectSchema {
            validator: self.validator.with_description(description),
            property_schemas: self.property_schemas,
        }
    }

    fn optional(self) -> (r: Self) {
        proof {
            use_type_invariant(&self);
        }
        ObjectSchema {
            validator: self.validator.optional(),
            property_schemas: self.property_schemas,
        }
    }

    fn nullable(self) -> (r: Self) {
        proof {
            use_type_invariant(&self);
        }
        ObjectSchema {
            validator: self.validator.nullable(),
            property_schemas: self.property_schemas,
        }
    }

    fn validate_at(
        &self,
        path: &str,
        value: Option<Json>,
        all_errors: &mut Vec<ValidationError>,
    ) -> (r: Result<Option<Json>, ()>)
        decreases self, 0nat,
    {
        proof {
            use_type_invariant(self);
        }
        let ghost before = all_errors@;
        let ghost fields = self@->Object_fields;
        let validated = self.validator.exec(path, value, all_errors);
        if self.property_schemas.len() == 0 {
            return validated;
        }
        let mut members: Vec<(String, Json)> = match validated {
            Ok(Some(Json::Object(members))) => members,
            other => {
                return other;
            },
        };
        proof {
            lemma_object_value(members);
        }
        let ghost given = member_values(members@);
        let mut object: Vec<(String, Json)> = Vec::new();
        let mut failed = false;
        let mut i: usize = 0;
        while i < self.property_schemas.len()
            invariant
                i <= self.property_schemas.len(),
                fields == field_views(self.property_schemas@),
                well_formed(self@),
                self@ is Object,
                fields == self@->Object_fields,
                forall|j: int|
                    i <= j < fields.len() ==> lookup(member_values(members@), (#[trigger] fields[j]).0)
                        == lookup(given, fields[j].0),
                failed == (fields_validation(fields, path@, given, i as nat).1.len() > 0),
                !failed ==> member_values(object@) == fields_validation(fields, path@, given, i as nat).0,
                error_views(all_errors@) == error_views(before) + fields_validation(
                    fields,
                    path@,
                    given,
                    i as nat,
                ).1,
            decreases self.property_schemas.len() - i,
        {
            let key = &self.property_schemas[i].0;
            let schema = &self.property_schemas[i].1;
            let at = member_path(path, key);
            let ghost held = member_values(members@);
            let input = take_member(&mut members, key);
            proof {
                assert(fields[i as int].0 == key@);
                assert(fields[i as int].1 == schema@);
                assert forall|j: int| i + 1 <= j < fields.len() implies lookup(
                    member_values(members@),
                    (#[trigger] fields[j]).0,
                ) == lookup(given, fields[j].0) by {
                    assert(fields[i as int].0 != fields[j].0);
                    lemma_lookup_without_first(held, key@, fields[j].0);
                }
            }
            let ghost sofar = object@;
            match schema.validate_at(at.as_str(), input, all_errors) {
                Ok(Some(validated)) => {
                    if !failed {
                        object.push((key.clone(), validated));
                        assert(member_values(object@) =~= member_values(sofar).push(
                            (key@, validated@),
                        ));
                    }
                },
                Ok(None) => {},
                Err(_) => {
                    failed = true;
                },
            }
            i += 1;
        }
        if failed {
            Err(())
        } else {
            proof {
                lemma_object_value(object);
                assert(error_views(all_errors@) =~= error_views(before));
            }
            Ok(Some(Json::Object(object)))
        }
    }

    fn into_schema(self) -> (schema: Schema) {
        proof {
            use_type_invariant(&self);
        }
        Schema::Object(self)
    }
}

/// A schema for an object.
pub fn object() -> (schema: ObjectSchema)
    ensures
        schema@ == new_object(),
        well_formed(schema@),
{
    ObjectSchema::new()
}

} // verus!
