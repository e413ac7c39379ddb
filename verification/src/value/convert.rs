//! Integers as values: each integer type converts to the variant that
//! bears its name.

use crate::value::Value;
use vstd::prelude::*;

verus! {

impl From<u8> for Value {
    fn from(value: u8) -> (converted: Value) {
        Value::U8(value)
    }
}

impl vstd::std_specs::convert::FromSpecImpl<u8> for Value {
    open spec fn obeys_from_spec() -> bool {
        true
    }

    open spec fn from_spec(value: u8) -> Value {
        Value::U8(value)
    }
}

impl From<i8> for Value {
    fn from(value: i8) -> (converted: Value) {
        Value::I8(value)
    }
}

impl vstd::std_specs::convert::FromSpecImpl<i8> for Value {
    open spec fn obeys_from_spec() -> bool {
        true
    }

    open spec fn from_spec(value: i8) -> Value {
        Value::I8(value)
    }
}

impl From<u16> for Value {
    fn from(value: u16) -> (converted: Value) {
        Value::U16(value)
    }
}

impl vstd::std_specs::convert::FromSpecImpl<u16> for Value {
    open spec fn obeys_from_spec() -> bool {
        true
    }

    open spec fn from_spec(value: u16) -> Value {
        Value::U16(value)
    }
}

impl From<i16> for Value {
    fn from(value: i16) -> (converted: Value) {
        Value::I16(value)
    }
}

impl vstd::std_specs::convert::FromSpecImpl<i16> for Value {
    open spec fn obeys_from_spec() -> bool {
        true
    }

    open spec fn from_spec(value: i16) -> Value {
        Value::I16(value)
    }
}

impl From<u32> for Value {
    fn from(value: u32) -> (converted: Value) {
        Value::U32(value)
    }
}

impl vstd::std_specs::convert::FromSpecImpl<u32> for Value {
    open spec fn obeys_from_spec() -> bool {
        true
    }

    open spec fn from_spec(value: u32) -> Value {
        Value::U32(value)
    }
}

impl From<i32> for Value {
    fn from(value: i32) -> (converted: Value) {
        Value::I32(value)
    }
}

impl vstd::std_specs::convert::FromSpecImpl<i32> for Value {
    open spec fn obeys_from_spec() -> bool {
        true
    }

    open spec fn from_spec(value: i32) -> Value {
        Value::I32(value)
    }
}

impl From<u64> for Value {
    fn from(value: u64) -> (converted: Value) {
        Value::U64(value)
    }
}

impl vstd::std_specs::convert::FromSpecImpl<u64> for Value {
    open spec fn obeys_from_spec() -> bool {
        true
    }

    open spec fn from_spec(value: u64) -> Value {
        Value::U64(value)
    }
}

impl From<i64> for Value {
    fn from(value: i64) -> (converted: Value) {
        Value::I64(value)
    }
}

impl vstd::std_specs::convert::FromSpecImpl<i64> for Value {
    open spec fn obeys_from_spec() -> bool {
        true
    }

    open spec fn from_spec(value: i64) -> Value {
        Value::I64(value)
    }
}

} // verus!
