//! 128-bit integers of the C interface.
use vstd::prelude::*;
use vstd::std_specs::convert::FromSpecImpl;

verus! {

/// A signed 128-bit integer of the C interface.
#[allow(non_camel_case_types)]
#[derive(Copy, Clone, Debug, PartialEq, Structural)]
pub struct i128(pub std::primitive::i128);

/// An unsigned 128-bit integer of the C interface.
#[allow(non_camel_case_types)]
#[derive(Copy, Clone, Debug, PartialEq, Structural)]
pub struct u128(pub std::primitive::u128);

impl From<std::primitive::i128> for i128 {
    fn from(value: std::primitive::i128) -> (r: Self) {
        i128(value)
    }
}

impl FromSpecImpl<std::primitive::i128> for i128 {
    open spec fn obeys_from_spec() -> bool {
        true
    }

    open spec fn from_spec(value: std::primitive::i128) -> Self {
        i128(value)
    }
}

impl From<std::primitive::u128> for u128 {
    fn from(value: std::primitive::u128) -> (r: Self) {
        u128(value)
    }
}

impl FromSpecImpl<std::primitive::u128> for u128 {
    open spec fn obeys_from_spec() -> bool {
        true
    }

    open spec fn from_spec(value: std::primitive::u128) -> Self {
        u128(value)
    }
}

impl Default for i128 {
    fn default() -> (r: Self)
        ensures
            r == i128(0),
    {
        i128(0)
    }
}

impl Default for u128 {
    fn default() -> (r: Self)
        ensures
            r == u128(0),
    {
        u128(0)
    }
}

} // verus!
