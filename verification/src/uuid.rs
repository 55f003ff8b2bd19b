//! Attribute identifiers. A UUID is treated as a plain value: the logic
//! only ever compares two of them for equality, when checking that a
//! dispatched access event really targets the attribute it was resolved to.

use vstd::prelude::*;

verus! {

/// A BLE UUID as one 128-bit value. Shorter 16- and 32-bit UUIDs embed by
/// value; how they are written on the wire is the stack's concern.
#[derive(Clone, Copy, Debug, PartialEq, Eq, Structural)]
pub struct BleUuid {
    pub value: u128,
}

impl BleUuid {
    pub fn from_u128(value: u128) -> (r: Self)
        ensures
            r.value == value,
    {
        BleUuid { value }
    }

    pub fn from_u16(value: u16) -> (r: Self)
        ensures
            r.value == value as u128,
    {
        BleUuid { value: value as u128 }
    }
}

} // verus!
