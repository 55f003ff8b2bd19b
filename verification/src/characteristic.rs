//! The GATT characteristic: construction and configuration, the descriptor
//! registration table, the access-event handler the native stack drives
//! (read with a user callback, chunked-write reassembly), subscription
//! updates, and the notify/indicate fan-out.

use vstd::prelude::*;
use crate::access::{AccessOp, GattAccessCtxt};
use crate::access::{BLE_ATT_ERR_INSUFFICIENT_RES, BLE_ATT_ERR_UNLIKELY, BLE_ATT_SUCCESS};
use crate::access::LONG_READ_HDR_THRESHOLD;
use crate::access::{outbound_views, Outbound, OutboundView};
use crate::att_value::AttValue;
use crate::conn::{spec_indicate_status_of, spec_mtu_of, ConnDesc, ConnEntry, ConnTable};
use crate::server::BLEServer;
use crate::descriptor::{BLEDescriptor, DscDefEntry};
use crate::flags::NimbleProperties;
use crate::flags::NimbleSub;
use crate::flags::{BLE_GATT_CHR_F_INDICATE, BLE_GATT_CHR_F_NOTIFY};
use crate::flags::{NIMBLE_SUB_INDICATE, NIMBLE_SUB_NOTIFY};
use crate::uuid::BleUuid;

verus! {

/// A peer's updated notify/indicate subscription state, as the native
/// stack reports it for one connection.
#[derive(Clone, Copy, Debug, PartialEq, Eq, Structural)]
pub struct SubscribeEvent {
    pub conn_handle: u16,
    pub cur_notify: bool,
    pub cur_indicate: bool,
}

/// The subscription a peer ends up with: what it requested, restricted to
/// what the characteristic itself supports.
pub open spec fn spec_effective_sub(
    props: NimbleProperties,
    cur_notify: bool,
    cur_indicate: bool,
) -> NimbleSub {
    NimbleSub {
        bits: (if cur_notify && props.spec_contains(BLE_GATT_CHR_F_NOTIFY) {
            NIMBLE_SUB_NOTIFY
        } else {
            0
        }) | (if cur_indicate && props.spec_contains(BLE_GATT_CHR_F_INDICATE) {
            NIMBLE_SUB_INDICATE
        } else {
            0
        }),
    }
}

/// Payload a message to a connection with the given MTU can carry: the MTU
/// less the protocol overhead of three bytes, and nothing below zero.
pub open spec fn spec_usable_payload(mtu: u16) -> u16 {
    if mtu >= 3 {
        (mtu - 3) as u16
    } else {
        0u16
    }
}

pub fn usable_payload(mtu: u16) -> (r: u16)
    ensures
        r == spec_usable_payload(mtu),
{
    if mtu >= 3 {
        mtu - 3
    } else {
        0
    }
}

/// When a read runs the user callback: either the inbound header signals
/// room for a long read, or the current value already fits one message.
/// Otherwise a long-read continuation is in progress and the callback
/// already ran for it.
pub open spec fn spec_read_gate(pkthdr_len: u16, value_len: nat, mtu: u16) -> bool {
    pkthdr_len > LONG_READ_HDR_THRESHOLD || value_len <= spec_usable_payload(mtu) as nat
}

/// The byte sequences of a chain of inbound segments.
pub open spec fn segments_view(s: Seq<Vec<u8>>) -> Seq<Seq<u8>> {
    s.map_values(|v: Vec<u8>| v@)
}

/// The concatenation, in order, of a chain of inbound segments.
pub open spec fn spec_reassembled(s: Seq<Vec<u8>>) -> Seq<u8> {
    segments_view(s).flatten()
}

/// What the fan-out sends one subscriber: an indication when it subscribed
/// to Indicate and the characteristic supports it — unless one is already
/// in flight for that connection, which skips it — else a notification
/// when it subscribed to Notify and the characteristic supports it, else
/// nothing. A connection whose usable payload is zero, or whose recorded
/// subscription is empty, is skipped outright.
pub open spec fn spec_step_emits(
    props: NimbleProperties,
    value: Seq<u8>,
    attr_handle: u16,
    conn: u16,
    sub: NimbleSub,
    mtu: u16,
    pending: Set<u16>,
) -> Seq<OutboundView> {
    if spec_usable_payload(mtu) == 0 || sub.spec_is_empty() {
        Seq::empty()
    } else if sub.spec_contains(NIMBLE_SUB_INDICATE) && props.spec_contains(
        BLE_GATT_CHR_F_INDICATE,
    ) {
        if pending.contains(conn) {
            Seq::empty()
        } else {
            seq![OutboundView { is_indicate: true, conn_handle: conn, attr_handle, data: value }]
        }
    } else if sub.spec_contains(NIMBLE_SUB_NOTIFY) && props.spec_contains(BLE_GATT_CHR_F_NOTIFY) {
        seq![OutboundView { is_indicate: false, conn_handle: conn, attr_handle, data: value }]
    } else {
        Seq::empty()
    }
}

/// How one subscriber changes the in-flight set: a submitted indication
/// whose synchronous status is success marks its connection; one that
/// fails synchronously is unmarked again at once, and everything else
/// leaves the set alone.
pub open spec fn spec_step_pending(
    props: NimbleProperties,
    conn: u16,
    sub: NimbleSub,
    mtu: u16,
    rc: i32,
    pending: Set<u16>,
) -> Set<u16> {
    if spec_usable_payload(mtu) != 0 && !sub.spec_is_empty() && sub.spec_contains(
        NIMBLE_SUB_INDICATE,
    ) && props.spec_contains(BLE_GATT_CHR_F_INDICATE) && !pending.contains(conn) && rc == 0 {
        pending.insert(conn)
    } else {
        pending
    }
}

/// The in-flight set after the first `n` subscribers of a fan-out pass.
pub open spec fn spec_pass_pending(
    subs: Seq<(u16, NimbleSub)>,
    n: int,
    props: NimbleProperties,
    tbl: Seq<ConnEntry>,
    pending0: Set<u16>,
) -> Set<u16>
    decreases n,
{
    if n <= 0 {
        pending0
    } else {
        let p = spec_pass_pending(subs, n - 1, props, tbl, pending0);
        spec_step_pending(
            props,
            subs[n - 1].0,
            subs[n - 1].1,
            spec_mtu_of(tbl, subs[n - 1].0),
            spec_indicate_status_of(tbl, subs[n - 1].0),
            p,
        )
    }
}

/// The messages the first `n` subscribers of a fan-out pass are sent, in
/// subscription-list order.
pub open spec fn spec_pass_out(
    subs: Seq<(u16, NimbleSub)>,
    n: int,
    props: NimbleProperties,
    value: Seq<u8>,
    attr_handle: u16,
    tbl: Seq<ConnEntry>,
    pending0: Set<u16>,
) -> Seq<OutboundView>
    decreases n,
{
    if n <= 0 {
        Seq::empty()
    } else {
        spec_pass_out(subs, n - 1, props, value, attr_handle, tbl, pending0) + spec_step_emits(
            props,
            value,
            attr_handle,
            subs[n - 1].0,
            subs[n - 1].1,
            spec_mtu_of(tbl, subs[n - 1].0),
            spec_pass_pending(subs, n - 1, props, tbl, pending0),
        )
    }
}

/// Appending a message appends its view.
proof fn lemma_outbound_views_push(s: Seq<Outbound>, o: Outbound)
    ensures
        outbound_views(s.push(o)) == outbound_views(s).push(o@),
{
    assert(outbound_views(s.push(o)) =~= outbound_views(s).push(o@));
}

/// First index of `conn` in the subscription list, or -1 when absent.
pub open spec fn find_sub_idx(s: Seq<(u16, NimbleSub)>, conn: u16) -> int
    decreases s.len(),
{
    if s.len() == 0 {
        -1
    } else if s[0].0 == conn {
        0
    } else if find_sub_idx(s.drop_first(), conn) < 0 {
        -1
    } else {
        find_sub_idx(s.drop_first(), conn) + 1
    }
}

/// The subscription recorded for `conn`, if any.
pub open spec fn spec_sub_of(s: Seq<(u16, NimbleSub)>, conn: u16) -> Option<NimbleSub> {
    if find_sub_idx(s, conn) < 0 {
        None
    } else {
        Some(s[find_sub_idx(s, conn)].1)
    }
}

/// What `find_sub_idx` returns: the first matching index, or -1 when no
/// entry matches.
pub proof fn lemma_find_sub_idx(s: Seq<(u16, NimbleSub)>, conn: u16)
    ensures
        find_sub_idx(s, conn) >= 0 ==> {
            &&& 0 <= find_sub_idx(s, conn) < s.len()
            &&& s[find_sub_idx(s, conn)].0 == conn
            &&& forall|j: int| 0 <= j < find_sub_idx(s, conn) ==> (#[trigger] s[j]).0 != conn
        },
        find_sub_idx(s, conn) < 0 ==> forall|j: int|
            0 <= j < s.len() ==> (#[trigger] s[j]).0 != conn,
    decreases s.len(),
{
    if s.len() > 0 && s[0].0 != conn {
        lemma_find_sub_idx(s.drop_first(), conn);
        assert forall|j: int| 1 <= j < s.len() implies s.drop_first()[j - 1] == s[j] by {}
    }
}

/// Attribute handle of a characteristic the stack has not registered yet.
pub const NULL_HANDLE: u16 = 0xFFFF;

/// User-supplied read hook: runs before the value is serialized into the
/// outbound response, and may replace the value (for dynamic values).
pub trait ReadCallback {
    fn on_read_event(&mut self, value: &mut AttValue, desc: &ConnDesc);
}

/// User-supplied write hook: runs after a write reassembled the inbound
/// bytes into the value, with those bytes and the writer's metadata.
pub trait WriteCallback {
    fn on_write_event(&mut self, data: &[u8], desc: &ConnDesc);
}

/// A read hook that does nothing.
pub struct NoopReadCallback {}

impl ReadCallback for NoopReadCallback {
    fn on_read_event(&mut self, value: &mut AttValue, desc: &ConnDesc) {
    }
}

/// A write hook that does nothing.
pub struct NoopWriteCallback {}

impl WriteCallback for NoopWriteCallback {
    fn on_write_event(&mut self, data: &[u8], desc: &ConnDesc) {
    }
}

/// One characteristic: identifier, stack-assigned handle, capability
/// flags, current value, optional read/write hooks, owned descriptors, and
/// the connections currently subscribed to it.
pub struct BLECharacteristic<R: ReadCallback, W: WriteCallback> {
    pub uuid: BleUuid,
    pub handle: u16,
    pub properties: NimbleProperties,
    pub value: AttValue,
    pub on_read: Option<R>,
    pub on_write: Option<W>,
    pub descriptors: Vec<BLEDescriptor>,
    pub subscribed_list: Vec<(u16, NimbleSub)>,
}

impl<R: ReadCallback, W: WriteCallback> BLECharacteristic<R, W> {
    /// Subscription entries name each connection at most once.
    pub open spec fn wf(&self) -> bool {
        forall|i: int, j: int|
            0 <= i < j < self.subscribed_list@.len() ==> (#[trigger] self.subscribed_list@[i]).0
                != (#[trigger] self.subscribed_list@[j]).0
    }

    /// A fresh characteristic: empty value, no hooks, no descriptors, no
    /// subscribers, handle still the unregistered sentinel.
    pub fn new(uuid: BleUuid, properties: NimbleProperties) -> (r: Self)
        ensures
            r.uuid == uuid,
            r.handle == NULL_HANDLE,
            r.properties == properties,
            r.value@ == Seq::<u8>::empty(),
            (r.on_read is None),
            (r.on_write is None),
            r.descriptors@ == Seq::<BLEDescriptor>::empty(),
            r.subscribed_list@ == Seq::<(u16, NimbleSub)>::empty(),
            r.wf(),
    {
        BLECharacteristic {
            uuid,
            handle: NULL_HANDLE,
            properties,
            value: AttValue::new(),
            on_read: None,
            on_write: None,
            descriptors: Vec::new(),
            subscribed_list: Vec::new(),
        }
    }

    /// Record the attribute handle the stack assigned at registration.
    /// Registration happens once: the handle still carries the sentinel,
    /// and what the stack assigns is never the sentinel.
    pub fn set_handle(&mut self, handle: u16)
        requires
            old(self).handle == NULL_HANDLE,
            handle != NULL_HANDLE,
        ensures
            final(self).handle == handle,
            *final(self) == (BLECharacteristic { handle, ..*old(self) }),
    {
        self.handle = handle;
    }

    /// Overwrite the value buffer. Subscribers are not notified: that is a
    /// distinct, explicit action.
    pub fn set_value(&mut self, value: &[u8])
        ensures
            final(self).value@ == value@,
            *final(self) == (BLECharacteristic { value: final(self).value, ..*old(self) }),
    {
        self.value.set_value(value);
    }

    /// Install the read hook. A later registration replaces an earlier one.
    pub fn on_read(&mut self, callback: R)
        ensures
            *final(self) == (BLECharacteristic { on_read: Some(callback), ..*old(self) }),
    {
        self.on_read = Some(callback);
    }

    /// Install the write hook. A later registration replaces an earlier one.
    pub fn on_write(&mut self, callback: W)
        ensures
            *final(self) == (BLECharacteristic { on_write: Some(callback), ..*old(self) }),
    {
        self.on_write = Some(callback);
    }

    /// Append a new descriptor and return its index, the handle under which
    /// the owner keeps it reachable (and alive) for the stack's callbacks.
    pub fn create_descriptor(&mut self, uuid: BleUuid, properties: NimbleProperties) -> (idx:
        usize)
        ensures
            idx == old(self).descriptors@.len(),
            final(self).descriptors@.len() == old(self).descriptors@.len() + 1,
            forall|i: int|
                0 <= i < old(self).descriptors@.len() ==> final(self).descriptors@[i] == old(self).descriptors@[i],
            final(self).descriptors@[idx as int].uuid == uuid,
            final(self).descriptors@[idx as int].properties == properties,
            final(self).descriptors@[idx as int].value@ == Seq::<u8>::empty(),
            *final(self) == (BLECharacteristic { descriptors: final(self).descriptors, ..*old(self) }),
    {
        let idx = self.descriptors.len();
        self.descriptors.push(BLEDescriptor::new(uuid, properties));
        idx
    }

    /// Replace the value of the descriptor at `idx`.
    pub fn set_descriptor_value(&mut self, idx: usize, value: &[u8])
        requires
            idx < old(self).descriptors@.len(),
        ensures
            final(self).descriptors@.len() == old(self).descriptors@.len(),
            final(self).descriptors@[idx as int].value@ == value@,
            final(self).descriptors@[idx as int].uuid == old(self).descriptors@[idx as int].uuid,
            final(self).descriptors@[idx as int].properties == old(self).descriptors@[
                idx as int
            ].properties,
            forall|i: int|
                0 <= i < old(self).descriptors@.len() && i != idx ==> final(self).descriptors@[i]
                    == old(self).descriptors@[i],
            *final(self) == (BLECharacteristic { descriptors: final(self).descriptors, ..*old(self) }),
    {
        let d = &mut self.descriptors[idx];
        d.set_value(value);
    }

    /// The registration row for the descriptor at `idx` of `dscs`.
    pub open spec fn dsc_row(dscs: Seq<BLEDescriptor>, idx: int) -> DscDefEntry {
        DscDefEntry::Dsc {
            uuid: dscs[idx].uuid,
            att_flags: dscs[idx].properties.bits,
            min_key_size: 0,
            arg: idx as usize,
        }
    }

    /// Build the descriptor registration table for the stack: nothing when
    /// there are no descriptors (the stack reads that as "none"), else one
    /// row per descriptor in insertion order, closed by the sentinel row.
    /// The table is rebuilt from scratch on every call.
    pub fn construct_svc_def_descriptors(&self) -> (r: Option<Vec<DscDefEntry>>)
        ensures
            (r is None) <==> self.descriptors@.len() == 0,
            r matches Some(t) ==> {
                &&& t@.len() == self.descriptors@.len() + 1
                &&& forall|i: int|
                    0 <= i < self.descriptors@.len() ==> t@[i] == Self::dsc_row(
                        self.descriptors@,
                        i,
                    )
                &&& t@[self.descriptors@.len() as int] == DscDefEntry::Sentinel
            },
    {
        if self.descriptors.len() == 0 {
            return None;
        }
        let mut table: Vec<DscDefEntry> = Vec::new();
        let mut i: usize = 0;
        while i < self.descriptors.len()
            invariant
                i <= self.descriptors@.len(),
                table@.len() == i,
                forall|j: int| 0 <= j < i ==> table@[j] == Self::dsc_row(self.descriptors@, j),
            decreases self.descriptors@.len() - i,
        {
            let d = &self.descriptors[i];
            table.push(
                DscDefEntry::Dsc {
                    uuid: d.uuid,
                    att_flags: d.properties.bits,
                    min_key_size: 0,
                    arg: i,
                },
            );
            i = i + 1;
        }
        table.push(DscDefEntry::Sentinel);
        Some(table)
    }

    /// Handle an access event the stack dispatched to this characteristic.
    /// `conn` is what a connection lookup by the event's connection handle
    /// returned, and `mtu` that connection's negotiated MTU. An event whose
    /// attribute identifier does not match, or whose operation is neither
    /// read nor write, fails with the protocol-mismatch status and changes
    /// nothing. A read runs the user callback when the callback condition
    /// holds, then serializes the post-callback value into the outbound
    /// buffer, failing
    /// only for want of room there. A write reassembles the chained inbound
    /// segments, in order, into the value, runs the user callback when the
    /// connection is known, and always succeeds.
    pub fn handle_gap_event(&mut self, conn: Option<ConnDesc>, mtu: u16, ctxt: &mut GattAccessCtxt)
        -> (status: u8)
        requires
            old(ctxt).outbound.wf(),
        ensures
            final(ctxt).outbound.wf(),
            final(ctxt).op == old(ctxt).op,
            final(ctxt).uuid == old(ctxt).uuid,
            final(ctxt).pkthdr_len == old(ctxt).pkthdr_len,
            final(ctxt).inbound@ == old(ctxt).inbound@,
            final(ctxt).outbound.cap() == old(ctxt).outbound.cap(),
            (old(ctxt).uuid != old(self).uuid || (old(ctxt).op is Other)) ==> (status
                == BLE_ATT_ERR_UNLIKELY && *final(self) == *old(self) && final(ctxt).outbound.bytes() == old(ctxt).outbound.bytes()),
            (old(ctxt).uuid == old(self).uuid && (old(ctxt).op is ReadChr)) ==> {
                let invoked = (old(self).on_read is Some) && (conn is Some) && spec_read_gate(
                    old(ctxt).pkthdr_len,
                    old(self).value@.len(),
                    mtu,
                );
                &&& !invoked ==> *final(self) == *old(self)
                &&& invoked ==> ((final(self).on_read is Some) && *final(self)
                    == (BLECharacteristic {
                    value: final(self).value,
                    on_read: final(self).on_read,
                    ..*old(self)
                }))
                &&& (status == BLE_ATT_SUCCESS <==> old(ctxt).outbound.bytes().len() + final(self).value@.len() <= old(ctxt).outbound.cap())
                &&& status == BLE_ATT_SUCCESS ==> final(ctxt).outbound.bytes() == old(ctxt).outbound.bytes() + final(self).value@
                &&& status != BLE_ATT_SUCCESS ==> (status == BLE_ATT_ERR_INSUFFICIENT_RES && final(ctxt).outbound.bytes() == old(ctxt).outbound.bytes())
            },
            (old(ctxt).uuid == old(self).uuid && (old(ctxt).op is WriteChr)) ==> {
                &&& status == BLE_ATT_SUCCESS
                &&& final(self).value@ == spec_reassembled(old(ctxt).inbound@)
                &&& ((final(self).on_write is Some) <==> (old(self).on_write is Some))
                &&& *final(self) == (BLECharacteristic {
                    value: final(self).value,
                    on_write: final(self).on_write,
                    ..*old(self)
                })
                &&& final(ctxt).outbound.bytes() == old(ctxt).outbound.bytes()
            },
    {
        if self.uuid != ctxt.uuid {
            return BLE_ATT_ERR_UNLIKELY;
        }
        match ctxt.op {
            AccessOp::ReadChr => {
                let gate = ctxt.pkthdr_len > LONG_READ_HDR_THRESHOLD || {
                    let payload = usable_payload(mtu);
                    self.value.len() <= payload as usize
                };
                if gate {
                    match conn {
                        Some(desc) => {
                            match &mut self.on_read {
                                Some(cb) => {
                                    cb.on_read_event(&mut self.value, &desc);
                                },
                                None => {},
                            }
                        },
                        None => {},
                    }
                }
                let ok = ctxt.outbound.append(self.value.value());
                if ok {
                    BLE_ATT_SUCCESS
                } else {
                    BLE_ATT_ERR_INSUFFICIENT_RES
                }
            },
            AccessOp::WriteChr => {
                self.value.clear();
                let ghost segs = segments_view(ctxt.inbound@);
                let mut i: usize = 0;
                while i < ctxt.inbound.len()
                    invariant
                        i <= ctxt.inbound@.len(),
                        segs == segments_view(ctxt.inbound@),
                        self.value@ == segs.subrange(0, i as int).flatten(),
                        *self == (BLECharacteristic { value: self.value, ..*old(self) }),
                        *ctxt == *old(ctxt),
                    decreases ctxt.inbound@.len() - i,
                {
                    let seg = &ctxt.inbound[i];
                    self.value.extend(seg.as_slice());
                    proof {
                        segs.subrange(0, i as int).lemma_flatten_push(segs[i as int]);
                        assert(segs.subrange(0, (i + 1) as int) =~= segs.subrange(
                            0,
                            i as int,
                        ).push(segs[i as int]));
                    }
                    i = i + 1;
                }
                proof {
                    assert(segs.subrange(0, segs.len() as int) =~= segs);
                }
                match conn {
                    Some(desc) => {
                        match &mut self.on_write {
                            Some(cb) => {
                                cb.on_write_event(self.value.value(), &desc);
                            },
                            None => {},
                        }
                    },
                    None => {},
                }
                BLE_ATT_SUCCESS
            },
            AccessOp::Other => BLE_ATT_ERR_UNLIKELY,
        }
    }

    /// Fan the current value out to the subscribed connections. `tbl`
    /// holds the stack's per-connection answers (negotiated MTU, and the
    /// synchronous status an indication submission returns); the messages
    /// to submit are appended to `out` in subscription-list order, and the
    /// server's indication-in-flight state is updated as each submission
    /// decides. With no subscribers nothing is sent and nothing changes.
    pub fn notify(&self, server: &mut BLEServer, tbl: &ConnTable, out: &mut Vec<Outbound>)
        ensures
            outbound_views(final(out)@) == outbound_views(old(out)@) + spec_pass_out(
                self.subscribed_list@,
                self.subscribed_list@.len() as int,
                self.properties,
                self.value@,
                self.handle,
                tbl.entries@,
                old(server).waiting_set(),
            ),
            final(server).waiting_set() == spec_pass_pending(
                self.subscribed_list@,
                self.subscribed_list@.len() as int,
                self.properties,
                tbl.entries@,
                old(server).waiting_set(),
            ),
            final(out)@.len() >= old(out)@.len(),
            forall|k: int| 0 <= k < old(out)@.len() ==> final(out)@[k] == old(out)@[k],
            self.subscribed_list@.len() == 0 ==> (*final(out) == *old(out) && *final(server)
                == *old(server)),
    {
        if self.subscribed_list.len() == 0 {
            return ;
        }
        let ghost subs = self.subscribed_list@;
        let ghost pending0 = server.waiting_set();
        let ghost out0 = out@;
        let mut i: usize = 0;
        while i < self.subscribed_list.len()
            invariant
                i <= subs.len(),
                self.subscribed_list@ == subs,
                server.waiting_set() == spec_pass_pending(
                    subs,
                    i as int,
                    self.properties,
                    tbl.entries@,
                    pending0,
                ),
                outbound_views(out@) == outbound_views(out0) + spec_pass_out(
                    subs,
                    i as int,
                    self.properties,
                    self.value@,
                    self.handle,
                    tbl.entries@,
                    pending0,
                ),
                out@.len() >= out0.len(),
                forall|k: int| 0 <= k < out0.len() ==> out@[k] == out0[k],
            decreases subs.len() - i,
        {
            let entry = self.subscribed_list[i];
            let conn = entry.0;
            let sub = entry.1;
            let mtu = tbl.mtu_of(conn);
            let payload = usable_payload(mtu);
            let ghost pending_i = server.waiting_set();
            let ghost out_i = out@;
            let ghost emitted = spec_step_emits(
                self.properties,
                self.value@,
                self.handle,
                conn,
                sub,
                spec_mtu_of(tbl.entries@, conn),
                pending_i,
            );
            if payload != 0 && !sub.is_empty() {
                if sub.contains(NIMBLE_SUB_INDICATE) && self.properties.contains(
                    BLE_GATT_CHR_F_INDICATE,
                ) {
                    if server.set_indicate_wait(conn) {
                        let om = self.value.to_vec();
                        out.push(
                            Outbound {
                                is_indicate: true,
                                conn_handle: conn,
                                attr_handle: self.handle,
                                data: om,
                            },
                        );
                        let rc = tbl.indicate_status_of(conn);
                        if rc != 0 {
                            server.clear_indicate_wait(conn);
                            proof {
                                assert(server.waiting_set() =~= pending_i);
                            }
                        }
                    }
                    // else: a prior indication is still unacknowledged for
                    // this connection; it is skipped, not queued twice.
                } else if sub.contains(NIMBLE_SUB_NOTIFY) && self.properties.contains(
                    BLE_GATT_CHR_F_NOTIFY,
                ) {
                    let om = self.value.to_vec();
                    out.push(
                        Outbound {
                            is_indicate: false,
                            conn_handle: conn,
                            attr_handle: self.handle,
                            data: om,
                        },
                    );
                }
            }
            proof {
                if out@.len() > out_i.len() {
                    lemma_outbound_views_push(out_i, out@[out@.len() - 1]);
                    assert(outbound_views(out_i) + emitted =~= outbound_views(out_i).push(
                        out@[out@.len() - 1]@,
                    ));
                } else {
                    assert(outbound_views(out_i) + emitted =~= outbound_views(out_i));
                }
                assert(outbound_views(out0) + spec_pass_out(
                    subs,
                    (i + 1) as int,
                    self.properties,
                    self.value@,
                    self.handle,
                    tbl.entries@,
                    pending0,
                ) =~= (outbound_views(out0) + spec_pass_out(
                    subs,
                    i as int,
                    self.properties,
                    self.value@,
                    self.handle,
                    tbl.entries@,
                    pending0,
                )) + emitted);
            }
            i = i + 1;
        }
    }

    /// Apply a peer's reported subscription change. `conn` is what a
    /// connection lookup by `event.conn_handle` returned: when the
    /// connection has vanished, the event is dropped. Otherwise the entry
    /// for the connection is replaced by the effective flags, created on a
    /// first non-empty subscription, and removed when the flags become
    /// empty, so the list holds active subscribers only. An entry whose
    /// connection disappears without an unsubscribe event stays until one
    /// arrives: pruning is deliberately left to explicit updates.
    pub fn subscribe(&mut self, event: &SubscribeEvent, conn: Option<ConnDesc>)
        requires
            old(self).wf(),
        ensures
            final(self).wf(),
            *final(self) == (BLECharacteristic {
                subscribed_list: final(self).subscribed_list,
                ..*old(self)
            }),
            (conn is None) ==> final(self).subscribed_list@ == old(self).subscribed_list@,
            (conn is Some) ==> {
                let f = spec_effective_sub(old(self).properties, event.cur_notify, event.cur_indicate);
                let s = old(self).subscribed_list@;
                let idx = find_sub_idx(s, event.conn_handle);
                &&& (idx >= 0 && !f.spec_is_empty()) ==> final(self).subscribed_list@ == s.update(
                    idx,
                    (event.conn_handle, f),
                )
                &&& (idx >= 0 && f.spec_is_empty()) ==> final(self).subscribed_list@ == s.update(
                    idx,
                    s.last(),
                ).drop_last()
                &&& (idx < 0 && !f.spec_is_empty()) ==> final(self).subscribed_list@ == s.push(
                    (event.conn_handle, f),
                )
                &&& (idx < 0 && f.spec_is_empty()) ==> final(self).subscribed_list@ == s
            },
            (conn is Some) ==> {
                let f = spec_effective_sub(old(self).properties, event.cur_notify, event.cur_indicate);
                &&& spec_sub_of(final(self).subscribed_list@, event.conn_handle) == (
                if f.spec_is_empty() {
                    None::<NimbleSub>
                } else {
                    Some(f)
                })
                &&& forall|c: u16|
                    c != event.conn_handle ==> #[trigger] spec_sub_of(
                        final(self).subscribed_list@,
                        c,
                    ) == spec_sub_of(old(self).subscribed_list@, c)
            },
    {
        if conn.is_none() {
            return ;
        }
        let mut sub_val = NimbleSub::empty();
        if event.cur_notify && self.properties.contains(BLE_GATT_CHR_F_NOTIFY) {
            sub_val.insert(NIMBLE_SUB_NOTIFY);
        }
        if event.cur_indicate && self.properties.contains(BLE_GATT_CHR_F_INDICATE) {
            sub_val.insert(NIMBLE_SUB_INDICATE);
        }
        proof {
            assert((0u16 | 1u16) | 2u16 == 1u16 | 2u16) by (bit_vector);
            assert(0u16 | 1u16 == 1u16 | 0u16) by (bit_vector);
            assert(0u16 | 0u16 == 0u16) by (bit_vector);
            assert(sub_val == spec_effective_sub(
                self.properties,
                event.cur_notify,
                event.cur_indicate,
            ));
        }
        let found = self.position_of(event.conn_handle);
        let ghost s = self.subscribed_list@;
        let ghost f = sub_val;
        proof {
            lemma_find_sub_idx(s, event.conn_handle);
        }
        match found {
            Some(idx) => {
                if !sub_val.is_empty() {
                    self.subscribed_list[idx] = (event.conn_handle, sub_val);
                    proof {
                        lemma_sub_map_update(s, idx as int, event.conn_handle, f);
                    }
                } else {
                    self.subscribed_list.swap_remove(idx);
                    proof {
                        lemma_sub_map_swap_remove(s, idx as int, event.conn_handle);
                    }
                }
            },
            None => {
                if !sub_val.is_empty() {
                    self.subscribed_list.push((event.conn_handle, sub_val));
                    proof {
                        lemma_sub_map_push(s, event.conn_handle, f);
                    }
                }
            },
        }
    }

    /// Index of the entry for `conn`, if one exists.
    fn position_of(&self, conn: u16) -> (r: Option<usize>)
        ensures
            r matches Some(idx) ==> idx == find_sub_idx(self.subscribed_list@, conn),
            (r is None) ==> find_sub_idx(self.subscribed_list@, conn) < 0,
    {
        let mut i: usize = 0;
        while i < self.subscribed_list.len()
            invariant
                i <= self.subscribed_list@.len(),
                forall|j: int| 0 <= j < i ==> (#[trigger] self.subscribed_list@[j]).0 != conn,
            decreases self.subscribed_list@.len() - i,
        {
            let e = self.subscribed_list[i];
            if e.0 == conn {
                proof {
                    lemma_find_sub_idx(self.subscribed_list@, conn);
                }
                return Some(i);
            }
            i = i + 1;
        }
        proof {
            lemma_find_sub_idx(self.subscribed_list@, conn);
        }
        None
    }
}

/// Replacing the entry at the (unique, first) index of `conn` updates the
/// recorded subscription of `conn` and no other, and keeps entries unique.
proof fn lemma_sub_map_update(s: Seq<(u16, NimbleSub)>, idx: int, conn: u16, f: NimbleSub)
    requires
        0 <= idx < s.len(),
        idx == find_sub_idx(s, conn),
        forall|i: int, j: int|
            0 <= i < j < s.len() ==> (#[trigger] s[i]).0 != (#[trigger] s[j]).0,
    ensures
        ({
            let t = s.update(idx, (conn, f));
            &&& forall|i: int, j: int|
                0 <= i < j < t.len() ==> (#[trigger] t[i]).0 != (#[trigger] t[j]).0
            &&& spec_sub_of(t, conn) == Some(f)
            &&& forall|c: u16|
                c != conn ==> #[trigger] spec_sub_of(t, c) == spec_sub_of(s, c)
        }),
{
    let t = s.update(idx, (conn, f));
    lemma_find_sub_idx(s, conn);
    lemma_find_sub_idx(t, conn);
    assert(t[idx].0 == conn);
    if find_sub_idx(t, conn) != idx {
        assert(false);
    }
    assert forall|c: u16| c != conn implies #[trigger] spec_sub_of(t, c) == spec_sub_of(s, c) by {
        lemma_find_sub_idx(s, c);
        lemma_find_sub_idx(t, c);
        let ks = find_sub_idx(s, c);
        let kt = find_sub_idx(t, c);
        if ks >= 0 && kt < 0 {
            assert(t[ks].0 != c);
            assert(ks == idx);
            assert(false);
        }
        if ks < 0 && kt >= 0 {
            assert(s[kt].0 != c);
            assert(kt == idx);
            assert(false);
        }
        if ks >= 0 && kt >= 0 {
            assert(ks != idx && kt != idx);
            if ks < kt {
                assert(t[ks].0 != c);
                assert(false);
            }
            if kt < ks {
                assert(s[kt].0 != c);
                assert(false);
            }
        }
    }
}

/// Removing the (unique, first) entry of `conn` by swapping in the last
/// entry drops the recorded subscription of `conn` and no other, and keeps
/// entries unique.
proof fn lemma_sub_map_swap_remove(s: Seq<(u16, NimbleSub)>, idx: int, conn: u16)
    requires
        0 <= idx < s.len(),
        idx == find_sub_idx(s, conn),
        forall|i: int, j: int|
            0 <= i < j < s.len() ==> (#[trigger] s[i]).0 != (#[trigger] s[j]).0,
    ensures
        ({
            let t = s.update(idx, s.last()).drop_last();
            &&& forall|i: int, j: int|
                0 <= i < j < t.len() ==> (#[trigger] t[i]).0 != (#[trigger] t[j]).0
            &&& spec_sub_of(t, conn) == None::<NimbleSub>
            &&& forall|c: u16|
                c != conn ==> #[trigger] spec_sub_of(t, c) == spec_sub_of(s, c)
        }),
{
    let t = s.update(idx, s.last()).drop_last();
    let last = s.len() - 1;
    lemma_find_sub_idx(s, conn);
    assert(forall|j: int| 0 <= j < t.len() ==> t[j] == (if j == idx {
        s[last]
    } else {
        s[j]
    }));
    lemma_find_sub_idx(t, conn);
    if find_sub_idx(t, conn) >= 0 {
        let k = find_sub_idx(t, conn);
        assert(t[k].0 == conn);
        if k == idx {
            assert(s[last].0 == conn);
            assert(idx < last ==> false);
            assert(false);
        } else {
            assert(s[k].0 == conn);
            assert(false);
        }
    }
    assert forall|c: u16| c != conn implies #[trigger] spec_sub_of(t, c) == spec_sub_of(s, c) by {
        lemma_find_sub_idx(s, c);
        lemma_find_sub_idx(t, c);
        let ks = find_sub_idx(s, c);
        let kt = find_sub_idx(t, c);
        if ks >= 0 {
            assert(ks != idx);
            if kt < 0 {
                if ks < last {
                    assert(t[ks].0 != c);
                    assert(false);
                } else {
                    assert(idx < last);
                    assert(t[idx].0 != c);
                    assert(false);
                }
            } else {
                if kt == idx && idx < last {
                    assert(t[idx] == s[last]);
                    assert(ks == last);
                    assert(spec_sub_of(t, c) == Some(s[last].1));
                } else {
                    assert(t[kt] == s[kt]);
                    assert(ks == kt) by {
                        if ks < kt {
                            assert(t[ks].0 != c || ks == idx);
                            assert(false);
                        }
                        if kt < ks {
                            assert(s[kt].0 == c);
                            assert(false);
                        }
                    }
                }
            }
        } else {
            if kt >= 0 {
                let k = kt;
                assert(t[k].0 == c);
                if k == idx {
                    assert(s[last].0 == c);
                } else {
                    assert(s[k].0 == c);
                }
                assert(false);
            }
        }
    }
}

/// Appending an entry for a connection not yet in the list records its
/// subscription, touches no other, and keeps entries unique.
proof fn lemma_sub_map_push(s: Seq<(u16, NimbleSub)>, conn: u16, f: NimbleSub)
    requires
        find_sub_idx(s, conn) < 0,
        forall|i: int, j: int|
            0 <= i < j < s.len() ==> (#[trigger] s[i]).0 != (#[trigger] s[j]).0,
    ensures
        ({
            let t = s.push((conn, f));
            &&& forall|i: int, j: int|
                0 <= i < j < t.len() ==> (#[trigger] t[i]).0 != (#[trigger] t[j]).0
            &&& spec_sub_of(t, conn) == Some(f)
            &&& forall|c: u16|
                c != conn ==> #[trigger] spec_sub_of(t, c) == spec_sub_of(s, c)
        }),
{
    let t = s.push((conn, f));
    lemma_find_sub_idx(s, conn);
    lemma_find_sub_idx(t, conn);
    assert(t[s.len() as int].0 == conn);
    if find_sub_idx(t, conn) < 0 {
        assert(false);
    }
    let k = find_sub_idx(t, conn);
    assert(k == s.len()) by {
        if k < s.len() {
            assert(s[k].0 == conn);
            assert(false);
        }
    }
    assert forall|c: u16| c != conn implies #[trigger] spec_sub_of(t, c) == spec_sub_of(s, c) by {
        lemma_find_sub_idx(s, c);
        lemma_find_sub_idx(t, c);
        let ks = find_sub_idx(s, c);
        let kt = find_sub_idx(t, c);
        if ks >= 0 && kt < 0 {
            assert(t[ks].0 != c);
            assert(false);
        }
        if ks < 0 && kt >= 0 {
            assert(kt == s.len());
            assert(false);
        }
        if ks >= 0 && kt >= 0 {
            if ks < kt {
                assert(t[ks].0 != c);
                assert(false);
            }
            if kt < ks {
                assert(s[kt].0 == c);
                assert(false);
            }
            assert(t[kt] == s[ks]);
        }
    }
}

} // verus!
