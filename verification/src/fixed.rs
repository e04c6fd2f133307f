//! 16.16 fixed-point numbers.
use vstd::prelude::*;

verus! {

/// A 16.16 fixed-point number: its value is `raw / 65536`.
#[derive(Clone, Copy, Debug, PartialEq, Eq)]
pub struct Fixed(pub i32);

impl From<i16> for Fixed {
    fn from(value: i16) -> (r: Self) {
        Fixed(value as i32 * 65536)
    }
}

impl vstd::std_specs::convert::FromSpecImpl<i16> for Fixed {
    open spec fn obeys_from_spec() -> bool {
        true
    }

    open spec fn from_spec(v: i16) -> Fixed {
        Fixed((v * 65536) as i32)
    }
}

} // verus!
