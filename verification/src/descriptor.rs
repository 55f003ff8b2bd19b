//! Descriptor children of a characteristic, and the registration-table
//! entries the native stack consumes. A descriptor carries the same kind of
//! value and capability flags as a characteristic, scoped to a single
//! value, with no subscription state.

use vstd::prelude::*;
use crate::att_value::AttValue;
use crate::flags::NimbleProperties;
use crate::uuid::BleUuid;

verus! {

/// One descriptor: identifier, capability flags and its own value buffer.
pub struct BLEDescriptor {
    pub uuid: BleUuid,
    pub properties: NimbleProperties,
    pub value: AttValue,
}

impl BLEDescriptor {
    pub fn new(uuid: BleUuid, properties: NimbleProperties) -> (r: Self)
        ensures
            r.uuid == uuid,
            r.properties == properties,
            r.value@ == Seq::<u8>::empty(),
    {
        BLEDescriptor { uuid, properties, value: AttValue::new() }
    }

    pub fn set_value(&mut self, value: &[u8])
        ensures
            final(self).value@ == value@,
            final(self).uuid == old(self).uuid,
            final(self).properties == old(self).properties,
    {
        self.value.set_value(value);
    }
}

/// One row of the registration table handed to the native stack. `arg`
/// models the opaque per-descriptor argument: the index under which the
/// owning characteristic keeps the descriptor alive for the stack's
/// callbacks. The table ends with a sentinel row, as registration requires.
#[derive(Clone, Copy, Debug, PartialEq, Eq, Structural)]
pub enum DscDefEntry {
    Dsc { uuid: BleUuid, att_flags: u16, min_key_size: u8, arg: usize },
    Sentinel,
}

} // verus!
