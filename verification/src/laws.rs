//! What holds of validation against every schema.
use crate::error::{type_error_view, ErrorView};
use crate::json::{coerced, JsonType, JsonValue};
use crate::schema::{
    accepted, described, element_path, field_path, fields_validation, items_validation,
    lemma_present_stays_present, lookup, made_nullable, made_optional, rejected, settings, validation,
    well_formed, SchemaView,
};
use crate::test::{rule_holds, TestView};
use crate::text::{lemma_trimmed_is_stable, starts_with, trimmed};
use crate::validator::{
    apply_transforms, failures, is_target, resolved_label, validated, Transform, ValidatorView,
};
use vstd::prelude::*;

verus! {

/// Against a schema made optional, an absent value gives no value and no
/// error. Against a schema that is not optional, it gives one type error, at
/// the path of the value and for the kind that the schema asks for.
pub proof fn law_absent_value(schema: SchemaView, path: Seq<char>)
    ensures
        validation(made_optional(schema), path, None) == accepted(None),
        settings(schema).is_optional ==> validation(schema, path, None) == accepted(None),
        !settings(schema).is_optional ==> validation(schema, path, None) == rejected(
            seq![
                type_error_view(
                    path,
                    resolved_label(settings(schema), path),
                    settings(schema).jsontype_,
                ),
            ],
        ),
{
}

/// Against a schema made nullable, null gives null, whatever tests the schema
/// has. Against a schema that is not nullable, null gives one type error, at
/// the path of the value and for the kind that the schema asks for.
pub proof fn law_null_value(schema: SchemaView, path: Seq<char>)
    requires
        well_formed(schema),
    ensures
        validation(made_nullable(schema), path, Some(JsonValue::Null)) == accepted(
            Some(JsonValue::Null),
        ),
        settings(schema).is_nullable ==> validation(schema, path, Some(JsonValue::Null))
            == accepted(Some(JsonValue::Null)),
        !settings(schema).is_nullable ==> validation(schema, path, Some(JsonValue::Null))
            == rejected(
            seq![
                type_error_view(
                    path,
                    resolved_label(settings(schema), path),
                    settings(schema).jsontype_,
                ),
            ],
        ),
{
}

/// A description changes nothing in validation.
pub proof fn law_description_is_not_enforced(
    schema: SchemaView,
    description: Seq<char>,
    path: Seq<char>,
    value: Option<JsonValue>,
)
    ensures
        validation(described(schema, description), path, value) == validation(schema, path, value),
{
}

/// Whether applying a list of transforms to what it has made of a string
/// changes nothing more.
pub open spec fn settles(transforms: Seq<Transform>) -> bool {
    forall|s: Seq<char>|
        apply_transforms(transforms, #[trigger] apply_transforms(transforms, JsonValue::String(s)))
            == apply_transforms(transforms, JsonValue::String(s))
}

/// Whether the transforms of every validator in a schema settle.
pub open spec fn settled(schema: SchemaView) -> bool
    decreases schema,
{
    match schema {
        SchemaView::Scalar(validator) => settles(validator.transforms),
        SchemaView::Array { validator, element } => settles(validator.transforms) && match element {
            Some(child) => settled(*child),
            None => true,
        },
        SchemaView::Object { validator, fields } => settles(validator.transforms) && forall|i: int|
            0 <= i < fields.len() ==> settled(#[trigger] fields[i].1),
    }
}

/// Transforms turn a string into a string and leave every other value as it
/// is.
pub proof fn lemma_transforms_keep_kind(transforms: Seq<Transform>, value: JsonValue)
    ensures
        value is String <==> apply_transforms(transforms, value) is String,
        !(value is String) ==> apply_transforms(transforms, value) == value,
    decreases transforms.len(),
{
    if transforms.len() > 0 {
        lemma_transforms_keep_kind(transforms.drop_last(), value);
    }
}

/// A list of transforms that only trim makes of a string either the string
/// itself or the trimmed string.
proof fn lemma_trims(transforms: Seq<Transform>, s: Seq<char>)
    requires
        forall|i: int| 0 <= i < transforms.len() ==> transforms[i] == Transform::Trim,
    ensures
        apply_transforms(transforms, JsonValue::String(s)) == JsonValue::String(
            if transforms.len() == 0 {
                s
            } else {
                trimmed(s)
            },
        ),
    decreases transforms.len(),
{
    if transforms.len() > 0 {
        lemma_trims(transforms.drop_last(), s);
        lemma_trimmed_is_stable(s);
    }
}

/// Transforms that only trim settle; so does the empty list of transforms.
pub proof fn lemma_trims_settle(transforms: Seq<Transform>)
    requires
        forall|i: int| 0 <= i < transforms.len() ==> transforms[i] == Transform::Trim,
    ensures
        settles(transforms),
{
    assert forall|s: Seq<char>|
        apply_transforms(transforms, #[trigger] apply_transforms(transforms, JsonValue::String(s)))
            == apply_transforms(transforms, JsonValue::String(s)) by {
        lemma_trims(transforms, s);
        lemma_trims(transforms, trimmed(s));
        lemma_trimmed_is_stable(s);
    }
}

/// Whether a list of transforms only trims.
pub open spec fn only_trims(transforms: Seq<Transform>) -> bool {
    forall|i: int| 0 <= i < transforms.len() ==> transforms[i] == Transform::Trim
}

/// Whether no validator in a schema turns a string into upper or lower case.
pub open spec fn keeps_case(schema: SchemaView) -> bool
    decreases schema,
{
    match schema {
        SchemaView::Scalar(validator) => only_trims(validator.transforms),
        SchemaView::Array { validator, element } => {
            &&& only_trims(validator.transforms)
            &&& element matches Some(child) ==> keeps_case(*child)
        },
        SchemaView::Object { validator, fields } => {
            &&& only_trims(validator.transforms)
            &&& forall|i: int| 0 <= i < fields.len() ==> keeps_case(#[trigger] fields[i].1)
        },
    }
}

/// The transforms of a schema settle if none of them turns a string into
/// upper or lower case.
pub proof fn lemma_keeping_case_settles(schema: SchemaView)
    requires
        keeps_case(schema),
    ensures
        settled(schema),
    decreases schema,
{
    lemma_trims_settle(settings(schema).transforms);
    match schema {
        SchemaView::Scalar(_) => {},
        SchemaView::Array { validator, element } => {
            match element {
                Some(child) => {
                    lemma_keeping_case_settles(*child);
                },
                None => {},
            }
        },
        SchemaView::Object { validator, fields } => {
            assert forall|i: int| 0 <= i < fields.len() implies settled(#[trigger] fields[i].1) by {
                lemma_keeping_case_settles(fields[i].1);
            }
        },
    }
}

/// What a value is coerced to is coerced to itself, and is of the kind that
/// was asked for.
pub proof fn lemma_coerced_is_fixed(target: JsonType, json: JsonValue)
    requires
        is_target(target),
        coerced(target, json) is Some,
    ensures
        coerced(target, coerced(target, json)->Some_0) == coerced(target, json),
        coerced(target, json)->Some_0 is String <==> target is String,
        coerced(target, json)->Some_0 is Array <==> target is Array,
        coerced(target, json)->Some_0 is Object <==> target is Object,
        !(coerced(target, json)->Some_0 is Null),
{
}

/// Validating what a validator has returned returns it again.
pub proof fn lemma_validated_is_fixed(
    validator: ValidatorView,
    path: Seq<char>,
    value: Option<JsonValue>,
)
    requires
        is_target(validator.jsontype_),
        settles(validator.transforms),
        validated(validator, path, value) is Ok,
    ensures
        validated(validator, path, validated(validator, path, value)->Ok_0) == validated(
            validator,
            path,
            value,
        ),
{
    match value {
        None => {},
        Some(json) => {
            if json is Null && validator.is_nullable {
            } else {
                let first = coerced(validator.jsontype_, json)->Some_0;
                let made = apply_transforms(validator.transforms, first);
                lemma_coerced_is_fixed(validator.jsontype_, json);
                lemma_transforms_keep_kind(validator.transforms, first);
                if first is String {
                    let s = first->String_0;
                    assert(first == JsonValue::String(s));
                    assert(apply_transforms(validator.transforms, made) == made);
                    assert(coerced(validator.jsontype_, made) == Some(made));
                } else {
                    assert(made == first);
                }
            }
        },
    }
}

/// Whether two values are arrays of one length, or both objects: what the
/// tests of a validator cannot tell apart.
pub open spec fn alike(a: JsonValue, b: JsonValue) -> bool {
    ||| a is Object && b is Object
    ||| a is Array && b is Array && a->Array_0.len() == b->Array_0.len()
}

/// Two values that are alike fail the same tests.
proof fn lemma_failures_of_alike(
    tests: Seq<TestView>,
    path: Seq<char>,
    label: Seq<char>,
    a: JsonValue,
    b: JsonValue,
)
    requires
        alike(a, b),
    ensures
        failures(tests, path, label, a) == failures(tests, path, label, b),
    decreases tests.len(),
{
    if tests.len() > 0 {
        lemma_failures_of_alike(tests.drop_last(), path, label, a, b);
        assert(rule_holds(tests.last().rule, a) == rule_holds(tests.last().rule, b));
    }
}

/// A validator that returns an array or an object returns every value that
/// is alike when it is given that value.
proof fn lemma_validated_alike(
    validator: ValidatorView,
    path: Seq<char>,
    value: Option<JsonValue>,
    second: JsonValue,
)
    requires
        is_target(validator.jsontype_),
        validated(validator, path, value) matches Ok(Some(first)) && alike(first, second),
    ensures
        validated(validator, path, Some(second)) == accepted(Some(second)),
{
    let json = value->Some_0;
    let first = validated(validator, path, value)->Ok_0->Some_0;
    let label = resolved_label(validator, path);
    let kept = coerced(validator.jsontype_, json)->Some_0;
    lemma_coerced_is_fixed(validator.jsontype_, json);
    lemma_transforms_keep_kind(validator.transforms, kept);
    assert(kept == first);
    lemma_transforms_keep_kind(validator.transforms, second);
    lemma_failures_of_alike(validator.tests, path, label, first, second);
}

/// Where every one of the first `count` items of an array is valid, the
/// values that come out are as many, and each of them is valid and comes out
/// as itself.
proof fn lemma_items_are_fixed(
    child: SchemaView,
    path: Seq<char>,
    items: Seq<JsonValue>,
    again: Seq<JsonValue>,
    count: nat,
)
    requires
        well_formed(child),
        settled(child),
        count <= items.len(),
        items_validation(child, path, items, count).1.len() == 0,
        again.len() >= count,
        forall|i: int|
            0 <= i < count ==> again[i] == #[trigger] items_validation(child, path, items, count).0[i],
    ensures
        items_validation(child, path, items, count).0.len() == count,
        items_validation(child, path, again, count) == items_validation(child, path, items, count),
    decreases child, count + 1,
{
    if count > 0 {
        let index = (count - 1) as nat;
        let earlier = items_validation(child, path, items, index);
        let at = element_path(path, index);
        let one = validation(child, at, Some(items[index as int]));
        lemma_present_stays_present(child, at, items[index as int]);
        lemma_errors_are_some(child, at, Some(items[index as int]));
        assert(one is Ok);
        assert(earlier.1.len() == 0);
        let value = one->Ok_0->Some_0;
        let all = items_validation(child, path, items, count);
        assert(all.0 == earlier.0.push(value));
        assert(all.1 == earlier.1);
        if index > 0 {
            lemma_items_values_count(child, path, items, index);
        }
        assert(earlier.0.len() == index) by {
            lemma_items_values_count(child, path, items, index);
        }
        assert forall|i: int| 0 <= i < index implies again[i] == #[trigger] earlier.0[i] by {
            assert(all.0[i] == earlier.0[i]);
        }
        lemma_items_are_fixed(child, path, items, again, index);
        assert(again[index as int] == all.0[index as int]);
        law_valid_is_fixed(child, at, Some(items[index as int]));
    }
}

/// Where none of the first `count` items of an array fails, as many values
/// come out.
proof fn lemma_items_values_count(
    child: SchemaView,
    path: Seq<char>,
    items: Seq<JsonValue>,
    count: nat,
)
    requires
        count <= items.len(),
        items_validation(child, path, items, count).1.len() == 0,
    ensures
        items_validation(child, path, items, count).0.len() == count,
    decreases count,
{
    if count > 0 {
        let index = (count - 1) as nat;
        let at = element_path(path, index);
        lemma_present_stays_present(child, at, items[index as int]);
        lemma_errors_are_some(child, at, Some(items[index as int]));
        lemma_items_values_count(child, path, items, index);
    }
}

/// Validation that fails gives at least one error.
pub proof fn lemma_errors_are_some(schema: SchemaView, path: Seq<char>, value: Option<JsonValue>)
    ensures
        validation(schema, path, value) matches Err(errors) ==> errors.len() > 0,
{
}

/// The member found under a name after one more member is added: the one
/// found before, or else the new one if it has that name.
proof fn lemma_lookup_push(
    members: Seq<(Seq<char>, JsonValue)>,
    added: (Seq<char>, JsonValue),
    key: Seq<char>,
)
    ensures
        lookup(members.push(added), key) == match lookup(members, key) {
            Some(value) => Some(value),
            None => if added.0 == key {
                Some(added.1)
            } else {
                None
            },
        },
    decreases members.len(),
{
    let all = members.push(added);
    if members.len() == 0 {
        assert(all[0] == added);
        assert(all.skip(1).len() == 0);
        assert(lookup(all.skip(1), key) is None);
    } else {
        assert(all[0] == members[0]);
        assert(all.skip(1) =~= members.skip(1).push(added));
        lemma_lookup_push(members.skip(1), added, key);
    }
}

/// What the field at `index` of an object gives when it is validated against
/// the members of the object.
pub open spec fn field_outcome(
    fields: Seq<(Seq<char>, SchemaView)>,
    path: Seq<char>,
    members: Seq<(Seq<char>, JsonValue)>,
    index: int,
) -> Result<Option<JsonValue>, Seq<ErrorView>> {
    validation(fields[index].1, field_path(path, fields[index].0), lookup(members, fields[index].0))
}

/// Where none of the first `count` fields of an object fails, each of them
/// is found in what comes out with the value that it gave, and no other name
/// is found there.
proof fn lemma_fields_output(
    fields: Seq<(Seq<char>, SchemaView)>,
    path: Seq<char>,
    members: Seq<(Seq<char>, JsonValue)>,
    count: nat,
)
    requires
        count <= fields.len(),
        forall|i: int, j: int|
            0 <= i < j < fields.len() ==> (#[trigger] fields[i]).0 != (#[trigger] fields[j]).0,
        fields_validation(fields, path, members, count).1.len() == 0,
    ensures
        forall|i: int|
            0 <= i < count ==> #[trigger] field_outcome(fields, path, members, i) == accepted(
                lookup(fields_validation(fields, path, members, count).0, fields[i].0),
            ),
        forall|key: Seq<char>|
            (forall|j: int| 0 <= j < count ==> (#[trigger] fields[j]).0 != key) ==> #[trigger] lookup(
                fields_validation(fields, path, members, count).0,
                key,
            ) is None,
    decreases count,
{
    if count > 0 {
        let index = (count - 1) as int;
        let earlier = fields_validation(fields, path, members, index as nat);
        let all = fields_validation(fields, path, members, count);
        let (key, child) = fields[index];
        let one = field_outcome(fields, path, members, index);
        lemma_errors_are_some(child, field_path(path, key), lookup(members, key));
        assert(one is Ok);
        assert(earlier.1.len() == 0);
        lemma_fields_output(fields, path, members, index as nat);
        assert(lookup(earlier.0, key) is None) by {
            assert forall|j: int| 0 <= j < index implies (#[trigger] fields[j]).0 != key by {
                assert(fields[j].0 != fields[index].0);
            }
        }
        match one->Ok_0 {
            Some(value) => {
                assert(all.0 == earlier.0.push((key, value)));
                assert forall|i: int| 0 <= i < count implies #[trigger] field_outcome(
                    fields,
                    path,
                    members,
                    i,
                ) == accepted(lookup(all.0, fields[i].0)) by {
                    lemma_lookup_push(earlier.0, (key, value), fields[i].0);
                    if i < index {
                        assert(fields[i].0 != fields[index].0);
                        assert(field_outcome(fields, path, members, i) == accepted(
                            lookup(earlier.0, fields[i].0),
                        ));
                    }
                }
                assert forall|other: Seq<char>|
                    (forall|j: int| 0 <= j < count ==> (#[trigger] fields[j]).0
                        != other) implies #[trigger] lookup(all.0, other) is None by {
                    lemma_lookup_push(earlier.0, (key, value), other);
                    assert(fields[index].0 != other);
                    assert(lookup(earlier.0, other) is None);
                }
            },
            None => {
                assert(all.0 == earlier.0);
                assert forall|i: int| 0 <= i < count implies #[trigger] field_outcome(
                    fields,
                    path,
                    members,
                    i,
                ) == accepted(lookup(all.0, fields[i].0)) by {
                    if i < index {
                        assert(field_outcome(fields, path, members, i) == accepted(
                            lookup(earlier.0, fields[i].0),
                        ));
                    }
                }
                assert forall|other: Seq<char>|
                    (forall|j: int| 0 <= j < count ==> (#[trigger] fields[j]).0
                        != other) implies #[trigger] lookup(all.0, other) is None by {
                    assert(lookup(earlier.0, other) is None);
                }
            },
        }
    }
}

/// Where every field of an object gives, against other members, what it
/// gave against the first ones, the first `count` fields give the same
/// members and errors.
proof fn lemma_fields_are_fixed(
    fields: Seq<(Seq<char>, SchemaView)>,
    path: Seq<char>,
    members: Seq<(Seq<char>, JsonValue)>,
    output: Seq<(Seq<char>, JsonValue)>,
    count: nat,
)
    requires
        count <= fields.len(),
        forall|i: int| 0 <= i < fields.len() ==> well_formed(#[trigger] fields[i].1),
        forall|i: int| 0 <= i < fields.len() ==> settled(#[trigger] fields[i].1),
        forall|i: int|
            0 <= i < count ==> #[trigger] field_outcome(fields, path, members, i) == accepted(
                lookup(output, fields[i].0),
            ),
    ensures
        fields_validation(fields, path, output, count) == fields_validation(
            fields,
            path,
            members,
            count,
        ),
    decreases fields, count + 1,
{
    if count > 0 {
        let index = (count - 1) as int;
        lemma_fields_are_fixed(fields, path, members, output, index as nat);
        let (key, child) = fields[index];
        assert(field_outcome(fields, path, members, index) == accepted(lookup(output, key)));
        assert(well_formed(fields[index].1));
        assert(settled(fields[index].1));
        law_valid_is_fixed(child, field_path(path, key), lookup(members, key));
    }
}

/// Validating again what validation has returned returns it again: for a
/// schema whose transforms settle, a value that came out of the schema is
/// valid against it at the same path, and comes out as itself. Where no
/// value came out, none comes out again.
pub proof fn law_valid_is_fixed(schema: SchemaView, path: Seq<char>, value: Option<JsonValue>)
    requires
        well_formed(schema),
        settled(schema),
        validation(schema, path, value) is Ok,
    ensures
        validation(schema, path, validation(schema, path, value)->Ok_0) == validation(
            schema,
            path,
            value,
        ),
    decreases schema, 0nat,
{
    match schema {
        SchemaView::Scalar(validator) => {
            lemma_validated_is_fixed(validator, path, value);
        },
        SchemaView::Array { validator, element } => {
            let own = validated(validator, path, value);
            assert(own is Ok);
            lemma_validated_is_fixed(validator, path, value);
            match own->Ok_0 {
                Some(JsonValue::Array(items)) => match element {
                    Some(child) => {
                        let first = items_validation(*child, path, items, items.len());
                        lemma_items_values_count(*child, path, items, items.len());
                        lemma_items_are_fixed(*child, path, items, first.0, items.len());
                        lemma_validated_alike(validator, path, value, JsonValue::Array(first.0));
                    },
                    None => {},
                },
                _ => {},
            }
        },
        SchemaView::Object { validator, fields } => {
            let own = validated(validator, path, value);
            assert(own is Ok);
            lemma_validated_is_fixed(validator, path, value);
            match own->Ok_0 {
                Some(JsonValue::Object(members)) => {
                    if fields.len() > 0 {
                        let first = fields_validation(fields, path, members, fields.len());
                        lemma_fields_output(fields, path, members, fields.len());
                        lemma_fields_are_fixed(fields, path, members, first.0, fields.len());
                        lemma_validated_alike(validator, path, value, JsonValue::Object(first.0));
                    }
                },
                _ => {},
            }
        },
    }
}

/// Whether every error of a list lies at `path` or below it.
pub open spec fn lie_under(errors: Seq<ErrorView>, path: Seq<char>) -> bool {
    forall|i: int| 0 <= i < errors.len() ==> starts_with(#[trigger] errors[i].path, path)
}

/// The errors of the tests that a value fails lie at the path of the value.
proof fn lemma_failures_lie_at_path(
    tests: Seq<TestView>,
    path: Seq<char>,
    label: Seq<char>,
    value: JsonValue,
)
    ensures
        lie_under(failures(tests, path, label, value), path),
    decreases tests.len(),
{
    assert(path.subrange(0, path.len() as int) =~= path);
    if tests.len() > 0 {
        lemma_failures_lie_at_path(tests.drop_last(), path, label, value);
    }
}

/// What lies under a path that begins with another lies under the other.
proof fn lemma_lie_under_prefix(errors: Seq<ErrorView>, inner: Seq<char>, outer: Seq<char>)
    requires
        lie_under(errors, inner),
        starts_with(inner, outer),
    ensures
        lie_under(errors, outer),
{
    assert forall|i: int| 0 <= i < errors.len() implies starts_with(
        #[trigger] errors[i].path,
        outer,
    ) by {
        let at = errors[i].path;
        assert(starts_with(at, inner));
        assert(at.subrange(0, outer.len() as int) =~= at.subrange(0, inner.len() as int).subrange(
            0,
            outer.len() as int,
        ));
    }
}

/// The errors of the first `count` items of an array lie under the path of
/// the array.
proof fn lemma_items_errors_are_local(
    child: SchemaView,
    path: Seq<char>,
    items: Seq<JsonValue>,
    count: nat,
)
    ensures
        lie_under(items_validation(child, path, items, count).1, path),
    decreases child, count + 1,
{
    if count > 0 {
        let index = (count - 1) as nat;
        let at = element_path(path, index);
        lemma_items_errors_are_local(child, path, items, index);
        law_errors_are_local(child, at, Some(items[index as int]));
        assert(at.subrange(0, path.len() as int) =~= path);
        match validation(child, at, Some(items[index as int])) {
            Err(found) => {
                lemma_lie_under_prefix(found, at, path);
            },
            _ => {},
        }
    }
}

/// The errors of the first `count` fields of an object lie under the path of
/// the object.
proof fn lemma_fields_errors_are_local(
    fields: Seq<(Seq<char>, SchemaView)>,
    path: Seq<char>,
    members: Seq<(Seq<char>, JsonValue)>,
    count: nat,
)
    ensures
        lie_under(fields_validation(fields, path, members, count).1, path),
    decreases fields, count + 1,
{
    if count > 0 && count <= fields.len() {
        let index = (count - 1) as nat;
        let (key, child) = fields[index as int];
        let at = field_path(path, key);
        lemma_fields_errors_are_local(fields, path, members, index);
        law_errors_are_local(child, at, lookup(members, key));
        assert(at.subrange(0, path.len() as int) =~= path);
        match validation(child, at, lookup(members, key)) {
            Err(found) => {
                lemma_lie_under_prefix(found, at, path);
            },
            _ => {},
        }
    }
}

/// Every error that validation at a path gives lies at that path or below
/// it: at the path itself for the value, at the path of an item or a field
/// for what the value holds.
pub proof fn law_errors_are_local(schema: SchemaView, path: Seq<char>, value: Option<JsonValue>)
    ensures
        validation(schema, path, value) matches Err(errors) ==> lie_under(errors, path),
    decreases schema, 0nat,
{
    let validator = settings(schema);
    let label = resolved_label(validator, path);
    assert(path.subrange(0, path.len() as int) =~= path);
    if value is Some && coerced(validator.jsontype_, value->Some_0) is Some {
        let kept = coerced(validator.jsontype_, value->Some_0)->Some_0;
        lemma_failures_lie_at_path(
            validator.tests,
            path,
            label,
            apply_transforms(validator.transforms, kept),
        );
    }
    match schema {
        SchemaView::Scalar(_) => {},
        SchemaView::Array { validator, element } => {
            match validated(validator, path, value) {
                Ok(Some(JsonValue::Array(items))) => match element {
                    Some(child) => {
                        lemma_items_errors_are_local(*child, path, items, items.len());
                    },
                    None => {},
                },
                _ => {},
            }
        },
        SchemaView::Object { validator, fields } => {
            match validated(validator, path, value) {
                Ok(Some(JsonValue::Object(members))) => {
                    lemma_fields_errors_are_local(fields, path, members, fields.len());
                },
                _ => {},
            }
        },
    }
}

} // verus!
