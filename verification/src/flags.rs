//! Property and subscription bitsets.
//!
//! `NimbleProperties` describes which operations a characteristic or
//! descriptor supports; it is fixed at construction. `NimbleSub` is the
//! per-connection subscription state over Notify and Indicate.

use vstd::prelude::*;

verus! {

/// Characteristic/descriptor capability bits, one per supported operation.
pub const BLE_GATT_CHR_F_BROADCAST: u16 = 0x0001;
pub const BLE_GATT_CHR_F_READ: u16 = 0x0002;
pub const BLE_GATT_CHR_F_WRITE_NO_RSP: u16 = 0x0004;
pub const BLE_GATT_CHR_F_WRITE: u16 = 0x0008;
pub const BLE_GATT_CHR_F_NOTIFY: u16 = 0x0010;
pub const BLE_GATT_CHR_F_INDICATE: u16 = 0x0020;
pub const BLE_GATT_CHR_F_READ_ENC: u16 = 0x0200;
pub const BLE_GATT_CHR_F_READ_AUTHEN: u16 = 0x0400;
pub const BLE_GATT_CHR_F_READ_AUTHOR: u16 = 0x0800;
pub const BLE_GATT_CHR_F_WRITE_ENC: u16 = 0x1000;
pub const BLE_GATT_CHR_F_WRITE_AUTHEN: u16 = 0x2000;
pub const BLE_GATT_CHR_F_WRITE_AUTHOR: u16 = 0x4000;

/// Subscription bits a peer can hold per connection.
pub const NIMBLE_SUB_NOTIFY: u16 = 0x0001;
pub const NIMBLE_SUB_INDICATE: u16 = 0x0002;

/// Immutable capability bitset of a characteristic or descriptor.
#[derive(Clone, Copy, Debug, PartialEq, Eq, Structural)]
pub struct NimbleProperties {
    pub bits: u16,
}

impl NimbleProperties {
    /// All bits of `mask` are set.
    pub open spec fn spec_contains(self, mask: u16) -> bool {
        self.bits & mask == mask
    }

    pub fn from_bits(bits: u16) -> (r: Self)
        ensures
            r.bits == bits,
    {
        NimbleProperties { bits }
    }

    pub fn contains(&self, mask: u16) -> (r: bool)
        ensures
            r == self.spec_contains(mask),
    {
        self.bits & mask == mask
    }
}

/// Per-connection subscription bitset over Notify and Indicate.
#[derive(Clone, Copy, Debug, PartialEq, Eq, Structural)]
pub struct NimbleSub {
    pub bits: u16,
}

impl NimbleSub {
    pub open spec fn spec_is_empty(self) -> bool {
        self.bits == 0
    }

    pub open spec fn spec_contains(self, mask: u16) -> bool {
        self.bits & mask == mask
    }

    pub fn empty() -> (r: Self)
        ensures
            r.bits == 0,
    {
        NimbleSub { bits: 0 }
    }

    pub fn from_bits(bits: u16) -> (r: Self)
        ensures
            r.bits == bits,
    {
        NimbleSub { bits }
    }

    pub fn is_empty(&self) -> (r: bool)
        ensures
            r == self.spec_is_empty(),
    {
        self.bits == 0
    }

    pub fn contains(&self, mask: u16) -> (r: bool)
        ensures
            r == self.spec_contains(mask),
    {
        self.bits & mask == mask
    }

    pub fn insert(&mut self, mask: u16)
        ensures
            final(self).bits == old(self).bits | mask,
    {
        self.bits = self.bits | mask;
    }
}

} // verus!
