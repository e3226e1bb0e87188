//! Table-related value types.

use vstd::prelude::*;

verus! {

/// Field match value.
///
/// The second value of a field match: a mask, a range end, or a prefix
/// length, depending on the match type the field declares.
pub enum FieldMatchValue {
    /// A byte vector.
    Vec(Vec<u8>),
    /// A 32-bit integer.
    I32(i32),
}

impl From<Vec<u8>> for FieldMatchValue {
    fn from(v: Vec<u8>) -> (r: Self) {
        FieldMatchValue::Vec(v)
    }
}

impl vstd::std_specs::convert::FromSpecImpl<Vec<u8>> for FieldMatchValue {
    open spec fn obeys_from_spec() -> bool {
        true
    }

    open spec fn from_spec(v: Vec<u8>) -> Self {
        FieldMatchValue::Vec(v)
    }
}

impl From<i32> for FieldMatchValue {
    fn from(v: i32) -> (r: Self) {
        FieldMatchValue::I32(v)
    }
}

impl vstd::std_specs::convert::FromSpecImpl<i32> for FieldMatchValue {
    open spec fn obeys_from_spec() -> bool {
        true
    }

    open spec fn from_spec(v: i32) -> Self {
        FieldMatchValue::I32(v)
    }
}

} // verus!
