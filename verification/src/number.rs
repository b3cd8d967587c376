//! The schema for integers, signed and unsigned.
use crate::error::ValidationError;
use crate::json::{Json, JsonType};
use crate::schema::{new_scalar, well_formed, with_test, OkSchema, Schema, SchemaView};
use crate::test::{Rule, RuleView, TestView};
use crate::text::{decimal, integer_text};
use crate::validator::Validator;
use core::marker::PhantomData;
use vstd::prelude::*;

verus! {

/// An integer type that bounds of a number schema are given in.
pub trait Number: Copy {
    /// The integer that a value of the type is.
    spec fn value(self) -> int;

    /// The value as a wider integer.
    fn widen(self) -> (wide: i128)
        ensures
            wide == self.value(),
    ;
}

impl Number for i64 {
    open spec fn value(self) -> int {
        self as int
    }

    fn widen(self) -> (wide: i128) {
        self as i128
    }
}

impl Number for u64 {
    open spec fn value(self) -> int {
        self as int
    }

    fn widen(self) -> (wide: i128) {
        self as i128
    }
}

/// The integers that a list of numbers holds.
pub open spec fn integers<N: Number>(numbers: Seq<N>) -> Seq<int> {
    numbers.map_values(|n: N| n.value())
}

/// A schema for an integer: `Integer` for the range of `i64`, `Unsigned` for
/// that of `u64`.
pub struct NumberSchema<N: Number> {
    validator: Validator,
    number: PhantomData<N>,
}

impl<N: Number> View for NumberSchema<N> {
    type V = SchemaView;

    closed spec fn view(&self) -> SchemaView {
        SchemaView::Scalar(self.validator@)
    }
}

/// The test that a number is at least `min`.
pub open spec fn min_test(min: int) -> TestView {
    TestView {
        type_: "min"@,
        message: "<label> must be at least "@ + integer_text(min) + "."@,
        rule: RuleView::Min(min),
    }
}

/// The test that a number is at most `max`.
pub open spec fn max_test(max: int) -> TestView {
    TestView {
        type_: "max"@,
        message: "<label> must be at most "@ + integer_text(max) + "."@,
        rule: RuleView::Max(max),
    }
}

/// The test that a number is above `limit`.
pub open spec fn greater_than_test(limit: int) -> TestView {
    TestView {
        type_: "greater_than"@,
        message: "<label> must be greater than "@ + integer_text(limit) + "."@,
        rule: RuleView::GreaterThan(limit),
    }
}

/// The test that a number is below `limit`.
pub open spec fn less_than_test(limit: int) -> TestView {
    TestView {
        type_: "less_than"@,
        message: "<label> must be less than "@ + integer_text(limit) + "."@,
        rule: RuleView::LessThan(limit),
    }
}

/// The numerals of a list of numbers, with a comma and a space between each
/// two of them.
pub open spec fn listed(values: Seq<int>) -> Seq<char>
    decreases values.len(),
{
    if values.len() == 0 {
        Seq::empty()
    } else if values.len() == 1 {
        integer_text(values[0])
    } else {
        listed(values.drop_last()) + ", "@ + integer_text(values.last())
    }
}

/// The test that a number is none of `values`.
pub open spec fn not_one_of_test(values: Seq<int>) -> TestView {
    TestView {
        type_: "not_one_of"@,
        message: "<label> must not be one of the following: "@ + listed(values),
        rule: RuleView::NotOneOf(values),
    }
}

/// The numbers of a list as wider integers, and their numerals with a comma
/// and a space between each two.
fn list<N: Number>(numbers: &Vec<N>) -> (r: (Vec<i128>, String))
    ensures
        r.0@.map_values(|v: i128| v as int) == integers(numbers@),
        r.1@ == listed(integers(numbers@)),
{
    let ghost all = integers(numbers@);
    let mut wide: Vec<i128> = Vec::new();
    let mut text = String::new();
    let mut i: usize = 0;
    while i < numbers.len()
        invariant
            i <= numbers.len(),
            all == integers(numbers@),
            wide@.map_values(|v: i128| v as int) == all.take(i as int),
            text@ == listed(all.take(i as int)),
        decreases numbers.len() - i,
    {
        proof {
            let next = all.take(i as int + 1);
            assert(next.drop_last() =~= all.take(i as int));
            assert(next.last() == numbers@[i as int].value());
            if i == 0 {
                assert(next[0] == numbers@[0].value());
            }
        }
        if i > 0 {
            text.append(", ");
        }
        let number = numbers[i].widen();
        text.append(decimal(number).as_str());
        let ghost before = wide@;
        wide.push(number);
        proof {
            if i == 0 {
                assert(text@ =~= integer_text(numbers@[0].value()));
            }
            assert(wide@.map_values(|v: i128| v as int) =~= before.map_values(|v: i128| v as int).push(
                number as int,
            ));
            assert(all.take(i as int + 1) =~= all.take(i as int).push(number as int));
        }
        i += 1;
    }
    proof {
        assert(all.take(i as int) =~= all);
    }
    (wide, text)
}

impl<N: Number> NumberSchema<N> {
    #[verifier::type_invariant]
    spec fn sound(&self) -> bool {
        well_formed(self@)
    }

    /// A schema for a number of the kind `jsontype_`.
    pub fn new(jsontype_: JsonType) -> (schema: NumberSchema<N>)
        requires
            jsontype_ is Integer || jsontype_ is Unsigned,
        ensures
            schema@ == new_scalar(jsontype_),
            well_formed(schema@),
    {
        NumberSchema { validator: Validator::new(jsontype_), number: PhantomData }
    }

    /// Asks for a number that is at least `min`.
    pub fn min(self, min: N) -> (schema: NumberSchema<N>)
        ensures
            schema@ == with_test(self@, min_test(min.value())),
            well_formed(schema@),
    {
        let message = String::from_str("<label> must be at least ").concat(
            decimal(min.widen()).as_str(),
        ).concat(".");
        let mut validator = self.validator;
        validator.add_test("min", message, Rule::Min(min.widen()));
        NumberSchema { validator, number: PhantomData }
    }

    /// Asks for a number that is at most `max`.
    pub fn max(self, max: N) -> (schema: NumberSchema<N>)
        ensures
            schema@ == with_test(self@, max_test(max.value())),
            well_formed(schema@),
    {
        let message = String::from_str("<label> must be at most ").concat(
            decimal(max.widen()).as_str(),
        ).concat(".");
        let mut validator = self.validator;
        validator.add_test("max", message, Rule::Max(max.widen()));
        NumberSchema { validator, number: PhantomData }
    }

    /// Asks for a number that is above `limit`.
    pub fn greater_than(self, limit: N) -> (schema: NumberSchema<N>)
        ensures
            schema@ == with_test(self@, greater_than_test(limit.value())),
            well_formed(schema@),
    {
        let message = String::from_str("<label> must be greater than ").concat(
            decimal(limit.widen()).as_str(),
        ).concat(".");
        let mut validator = self.validator;
        validator.add_test("greater_than", message, Rule::GreaterThan(limit.widen()));
        NumberSchema { validator, number: PhantomData }
    }

    /// Asks for a number that is below `limit`.
    pub fn less_than(self, limit: N) -> (schema: NumberSchema<N>)
        ensures
            schema@ == with_test(self@, less_than_test(limit.value())),
            well_formed(schema@),
    {
        let message = String::from_str("<label> must be less than ").concat(
            decimal(limit.widen()).as_str(),
        ).concat(".");
        let mut validator = self.validator;
        validator.add_test("less_than", message, Rule::LessThan(limit.widen()));
        NumberSchema { validator, number: PhantomData }
    }

    /// Asks for a number that is none of `values`.
    pub fn not_one_of(self, values: Vec<N>) -> (schema: NumberSchema<N>)
        ensures
            schema@ == with_test(self@, not_one_of_test(integers(values@))),
            well_formed(schema@),
    {
        let (wide, text) = list(&values);
        let message = String::from_str("<label> must not be one of the following: ").concat(
            text.as_str(),
        );
        let mut validator = self.validator;
        validator.add_test("not_one_of", message, Rule::NotOneOf(wide));
        NumberSchema { validator, number: PhantomData }
    }
}

impl<N: Number> OkSchema for NumberSchema<N> {
    fn label(self, label: &'static str) -> (r: Self) {
        NumberSchema { validator: self.validator.with_label(label), number: PhantomData }
    }

    fn desc(self, description: &'static str) -> (r: Self) {
        NumberSchema {
            validator: self.validator.with_description(description),
            number: PhantomData,
        }
    }

    fn optional(self) -> (r: Self) {
        NumberSchema { validator: self.validator.optional(), number: PhantomData }
    }

    fn nullable(self) -> (r: Self) {
        NumberSchema { validator: self.validator.nullable(), number: PhantomData }
    }

    fn validate_at(
        &self,
        path: &str,
        value: Option<Json>,
        all_errors: &mut Vec<ValidationError>,
    ) -> (r: Result<Option<Json>, ()>) {
        self.validator.exec(path, value, all_errors)
    }

    fn into_schema(self) -> (schema: Schema) {
        proof {
            use_type_invariant(&self);
        }
        Schema::Scalar(self.validator)
    }
}

/// A schema for an integer in the range of `i64`.
pub fn integer() -> (schema: NumberSchema<i64>)
    ensures
        schema@ == new_scalar(JsonType::Integer),
        well_formed(schema@),
{
    NumberSchema::new(JsonType::Integer)
}

/// A schema for an integer in the range of `u64`.
pub fn unsigned() -> (schema: NumberSchema<u64>)
    ensures
        schema@ == new_scalar(JsonType::Unsigned),
        well_formed(schema@),
{
    NumberSchema::new(JsonType::Unsigned)
}

} // verus!
