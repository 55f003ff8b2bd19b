//! The attribute value buffer: a growable byte buffer with set, clear,
//! append and read access. Write events, user read callbacks and explicit
//! `set_value` calls all mutate a characteristic through this type.

use vstd::prelude::*;
use vstd::slice::slice_to_vec;

verus! {

/// Growable byte buffer holding the current value of an attribute.
pub struct AttValue {
    data: Vec<u8>,
}

impl View for AttValue {
    type V = Seq<u8>;

    closed spec fn view(&self) -> Seq<u8> {
        self.data@
    }
}

impl AttValue {
    pub fn new() -> (r: Self)
        ensures
            r@ == Seq::<u8>::empty(),
    {
        AttValue { data: Vec::new() }
    }

    pub fn len(&self) -> (r: usize)
        ensures
            r == self@.len(),
    {
        self.data.len()
    }

    /// Read access to the current bytes.
    pub fn value(&self) -> (r: &[u8])
        ensures
            r@ == self@,
    {
        self.data.as_slice()
    }

    /// A fresh copy of the current bytes.
    pub fn to_vec(&self) -> (r: Vec<u8>)
        ensures
            r@ == self@,
    {
        slice_to_vec(self.data.as_slice())
    }

    /// Overwrite the buffer with `value`.
    pub fn set_value(&mut self, value: &[u8])
        ensures
            final(self)@ == value@,
    {
        self.data = slice_to_vec(value);
    }

    pub fn clear(&mut self)
        ensures
            final(self)@ == Seq::<u8>::empty(),
    {
        self.data.clear();
    }

    /// Append `bytes` at the end, keeping what was there.
    pub fn extend(&mut self, bytes: &[u8])
        ensures
            final(self)@ == old(self)@ + bytes@,
    {
        let ghost prefix = self.data@;
        let mut i: usize = 0;
        while i < bytes.len()
            invariant
                i <= bytes@.len(),
                self.data@ == prefix + bytes@.subrange(0, i as int),
            decreases bytes@.len() - i,
        {
            let b = bytes[i];
            self.data.push(b);
            proof {
                assert(bytes@.subrange(0, (i + 1) as int) =~= bytes@.subrange(
                    0,
                    i as int,
                ).push(bytes@[i as int]));
                assert(prefix + bytes@.subrange(0, i as int).push(b) =~= (prefix
                    + bytes@.subrange(0, i as int)).push(b));
            }
            i = i + 1;
        }
        proof {
            assert(bytes@.subrange(0, bytes@.len() as int) =~= bytes@);
        }
    }
}

} // verus!
