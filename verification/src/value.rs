use vstd::prelude::*;

use crate::tiles::ValueRecord;

verus! {

/// One decoded attribute value: exactly one of the seven scalar shapes.
///
/// The `FloatValue` and `DoubleValue` variants carry the raw bit
/// patterns of the 32- and 64-bit floating-point wire fields; this crate
/// never interprets them numerically.
#[derive(Debug)]
pub enum Value {
    StringValue(String),
    FloatValue(u32),
    DoubleValue(u64),
    IntValue(i64),
    UintValue(u64),
    SintValue(i64),
    BoolValue(bool),
}

/// The mathematical shape of a [`Value`]: strings as character
/// sequences, everything else as the plain scalar.
pub enum ValueModel {
    StringValue(Seq<char>),
    FloatValue(u32),
    DoubleValue(u64),
    IntValue(i64),
    UintValue(u64),
    SintValue(i64),
    BoolValue(bool),
}

impl View for Value {
    type V = ValueModel;

    open spec fn view(&self) -> ValueModel {
        match self {
            Value::StringValue(s) => ValueModel::StringValue(s@),
            Value::FloatValue(b) => ValueModel::FloatValue(*b),
            Value::DoubleValue(b) => ValueModel::DoubleValue(*b),
            Value::IntValue(v) => ValueModel::IntValue(*v),
            Value::UintValue(v) => ValueModel::UintValue(*v),
            Value::SintValue(v) => ValueModel::SintValue(*v),
            Value::BoolValue(v) => ValueModel::BoolValue(*v),
        }
    }
}

/// The value a wire record decodes to: the first present field in the
/// fixed order string, float, double, int, uint, sint, bool; the empty
/// string value when no field is present.
pub open spec fn spec_decode_value(rec: ValueRecord) -> ValueModel {
    if rec.string_value is Some {
        ValueModel::StringValue(rec.string_value->0@)
    } else if rec.float_value is Some {
        ValueModel::FloatValue(rec.float_value->0)
    } else if rec.double_value is Some {
        ValueModel::DoubleValue(rec.double_value->0)
    } else if rec.int_value is Some {
        ValueModel::IntValue(rec.int_value->0)
    } else if rec.uint_value is Some {
        ValueModel::UintValue(rec.uint_value->0)
    } else if rec.sint_value is Some {
        ValueModel::SintValue(rec.sint_value->0)
    } else if rec.bool_value is Some {
        ValueModel::BoolValue(rec.bool_value->0)
    } else {
        ValueModel::StringValue(Seq::empty())
    }
}

impl Value {
    /// Decodes one wire record by first-match over its optional fields.
    pub fn new(value: &ValueRecord) -> (r: Value)
        ensures
            r@ == spec_decode_value(*value),
    {
        decode_value(value)
    }
}

impl Clone for Value {
    fn clone(&self) -> (res: Value)
        ensures
            res == *self,
    {
        match self {
            Value::StringValue(v) => Value::StringValue(v.clone()),
            Value::FloatValue(v) => Value::FloatValue(*v),
            Value::DoubleValue(v) => Value::DoubleValue(*v),
            Value::IntValue(v) => Value::IntValue(*v),
            Value::UintValue(v) => Value::UintValue(*v),
            Value::SintValue(v) => Value::SintValue(*v),
            Value::BoolValue(v) => Value::BoolValue(*v),
        }
    }
}

impl PartialEq for Value {
    fn eq(&self, other: &Value) -> (r: bool) {
        match (self, other) {
            (Value::StringValue(a), Value::StringValue(b)) => *a == *b,
            (Value::FloatValue(a), Value::FloatValue(b)) => a == b,
            (Value::DoubleValue(a), Value::DoubleValue(b)) => a == b,
            (Value::IntValue(a), Value::IntValue(b)) => a == b,
            (Value::UintValue(a), Value::UintValue(b)) => a == b,
            (Value::SintValue(a), Value::SintValue(b)) => a == b,
            (Value::BoolValue(a), Value::BoolValue(b)) => a == b,
            _ => false,
        }
    }
}

impl vstd::std_specs::cmp::PartialEqSpecImpl for Value {
    open spec fn obeys_eq_spec() -> bool {
        true
    }

    open spec fn eq_spec(&self, other: &Value) -> bool {
        self@ == other@
    }
}

fn decode_value(value: &ValueRecord) -> (r: Value)
    ensures
        r@ == spec_decode_value(*value),
{
    if value.string_value.is_some() {
        return Value::StringValue(value.string_value.as_ref().unwrap().clone());
    }
    if value.float_value.is_some() {
        return Value::FloatValue(value.float_value.unwrap());
    }
    if value.double_value.is_some() {
        return Value::DoubleValue(value.double_value.unwrap());
    }
    if value.int_value.is_some() {
        return Value::IntValue(value.int_value.unwrap());
    }
    if value.uint_value.is_some() {
        return Value::UintValue(value.uint_value.unwrap());
    }
    if value.sint_value.is_some() {
        return Value::SintValue(value.sint_value.unwrap());
    }
    if value.bool_value.is_some() {
        return Value::BoolValue(value.bool_value.unwrap());
    }
    Value::StringValue(String::new())
}

/// The number of optional fields a wire record has set.
pub open spec fn fields_set(rec: ValueRecord) -> int {
    (if rec.string_value is Some {
        1int
    } else {
        0int
    }) + (if rec.float_value is Some {
        1int
    } else {
        0int
    }) + (if rec.double_value is Some {
        1int
    } else {
        0int
    }) + (if rec.int_value is Some {
        1int
    } else {
        0int
    }) + (if rec.uint_value is Some {
        1int
    } else {
        0int
    }) + (if rec.sint_value is Some {
        1int
    } else {
        0int
    }) + (if rec.bool_value is Some {
        1int
    } else {
        0int
    })
}

/// A record with exactly one field set decodes to the variant matching
/// that field, and a record with no field set decodes to the empty
/// string value.
pub proof fn lemma_value_decode_single_field(rec: ValueRecord)
    ensures
        fields_set(rec) == 1 && rec.string_value is Some ==> spec_decode_value(rec)
            == ValueModel::StringValue(rec.string_value->0@),
        fields_set(rec) == 1 && rec.float_value is Some ==> spec_decode_value(rec)
            == ValueModel::FloatValue(rec.float_value->0),
        fields_set(rec) == 1 && rec.double_value is Some ==> spec_decode_value(rec)
            == ValueModel::DoubleValue(rec.double_value->0),
        fields_set(rec) == 1 && rec.int_value is Some ==> spec_decode_value(rec)
            == ValueModel::IntValue(rec.int_value->0),
        fields_set(rec) == 1 && rec.uint_value is Some ==> spec_decode_value(rec)
            == ValueModel::UintValue(rec.uint_value->0),
        fields_set(rec) == 1 && rec.sint_value is Some ==> spec_decode_value(rec)
            == ValueModel::SintValue(rec.sint_value->0),
        fields_set(rec) == 1 && rec.bool_value is Some ==> spec_decode_value(rec)
            == ValueModel::BoolValue(rec.bool_value->0),
        fields_set(rec) == 0 ==> spec_decode_value(rec) == ValueModel::StringValue(
            Seq::<char>::empty(),
        ),
{
}

} // verus!
