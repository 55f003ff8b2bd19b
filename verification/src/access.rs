//! Access events: what the native stack hands the characteristic when a
//! peer reads or writes, and the outbound response buffer the read path
//! fills. The buffer carries the resource bound the stack enforces, so a
//! failing append surfaces as the insufficient-resources status.

use vstd::prelude::*;
use crate::uuid::BleUuid;

verus! {

/// Status of a completed access operation: success.
pub const BLE_ATT_SUCCESS: u8 = 0;

/// Status when the event does not fit the attribute it was dispatched to.
pub const BLE_ATT_ERR_UNLIKELY: u8 = 0x0E;

/// Status when the outbound buffer cannot take the value.
pub const BLE_ATT_ERR_INSUFFICIENT_RES: u8 = 0x11;

/// Inbound message header length above which a long-read continuation is
/// taken to be in progress. A framing heuristic of the native stack, kept
/// as a named bound rather than a fixed magic number in the logic.
pub const LONG_READ_HDR_THRESHOLD: u16 = 8;

/// The operation an access event asks for.
#[derive(Clone, Copy, Debug, PartialEq, Eq, Structural)]
pub enum AccessOp {
    ReadChr,
    WriteChr,
    Other,
}

/// Outbound response message: a byte buffer bounded by the resources the
/// stack granted. Appending past the bound fails and leaves it unchanged.
pub struct OutMsg {
    data: Vec<u8>,
    cap: usize,
}

impl OutMsg {
    /// The bytes serialized so far.
    pub closed spec fn bytes(&self) -> Seq<u8> {
        self.data@
    }

    /// The resource bound the message was created with.
    pub closed spec fn cap(&self) -> int {
        self.cap as int
    }

    pub closed spec fn wf(&self) -> bool {
        self.data@.len() <= self.cap
    }

    pub fn with_capacity(cap: usize) -> (r: Self)
        ensures
            r.bytes() == Seq::<u8>::empty(),
            r.cap() == cap,
            r.wf(),
    {
        OutMsg { data: Vec::new(), cap }
    }

    pub fn len(&self) -> (r: usize)
        ensures
            r == self.bytes().len(),
    {
        self.data.len()
    }

    /// Read access to the serialized bytes.
    pub fn data(&self) -> (r: &[u8])
        ensures
            r@ == self.bytes(),
    {
        self.data.as_slice()
    }

    /// Append `bytes`, whole or not at all: fails exactly when the result
    /// would overrun the bound.
    pub fn append(&mut self, bytes: &[u8]) -> (ok: bool)
        requires
            old(self).wf(),
        ensures
            final(self).wf(),
            final(self).cap() == old(self).cap(),
            ok <==> old(self).bytes().len() + bytes@.len() <= old(self).cap(),
            ok ==> final(self).bytes() == old(self).bytes() + bytes@,
            !ok ==> final(self).bytes() == old(self).bytes(),
    {
        if bytes.len() <= self.cap - self.data.len() {
            let mut i: usize = 0;
            let ghost prefix = self.data@;
            while i < bytes.len()
                invariant
                    i <= bytes@.len(),
                    self.data@ == prefix + bytes@.subrange(0, i as int),
                    self.cap == old(self).cap,
                decreases bytes@.len() - i,
            {
                let b = bytes[i];
                self.data.push(b);
                proof {
                    assert(bytes@.subrange(0, (i + 1) as int) =~= bytes@.subrange(
                        0,
                        i as int,
                    ).push(bytes@[i as int]));
                    assert(prefix + bytes@.subrange(0, i as int).push(b) =~= (prefix
                        + bytes@.subrange(0, i as int)).push(b));
                }
                i = i + 1;
            }
            proof {
                assert(bytes@.subrange(0, bytes@.len() as int) =~= bytes@);
            }
            true
        } else {
            false
        }
    }
}

/// One message the fan-out submits to the stack: the value bytes bound for
/// one subscribed connection, as a notification or an indication.
pub struct Outbound {
    pub is_indicate: bool,
    pub conn_handle: u16,
    pub attr_handle: u16,
    pub data: Vec<u8>,
}

/// The mathematical content of an [`Outbound`] message.
pub ghost struct OutboundView {
    pub is_indicate: bool,
    pub conn_handle: u16,
    pub attr_handle: u16,
    pub data: Seq<u8>,
}

impl View for Outbound {
    type V = OutboundView;

    open spec fn view(&self) -> OutboundView {
        OutboundView {
            is_indicate: self.is_indicate,
            conn_handle: self.conn_handle,
            attr_handle: self.attr_handle,
            data: self.data@,
        }
    }
}

/// The views of a list of outbound messages.
pub open spec fn outbound_views(s: Seq<Outbound>) -> Seq<OutboundView> {
    s.map_values(|o: Outbound| o@)
}

/// What the stack hands the access handler: the requested operation, the
/// identifier of the attribute the dispatch resolved, the inbound message
/// header length (read path heuristic), the chained inbound segments of a
/// write, and the outbound buffer a read serializes into.
pub struct GattAccessCtxt {
    pub op: AccessOp,
    pub uuid: BleUuid,
    pub pkthdr_len: u16,
    pub inbound: Vec<Vec<u8>>,
    pub outbound: OutMsg,
}

} // verus!
