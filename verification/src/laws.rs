//! Properties that hold of the library for all inputs, stated over the
//! same spec functions its contracts use and proved once and for all.

use vstd::prelude::*;
use crate::access::OutboundView;
use crate::characteristic::{spec_effective_sub, spec_pass_out, spec_pass_pending};
use crate::characteristic::{spec_step_emits, spec_step_pending, spec_usable_payload};
use crate::conn::{spec_mtu_of, ConnEntry};
use crate::flags::{NimbleProperties, NimbleSub};
use crate::flags::{BLE_GATT_CHR_F_INDICATE, BLE_GATT_CHR_F_NOTIFY};
use crate::flags::{NIMBLE_SUB_INDICATE, NIMBLE_SUB_NOTIFY};

verus! {

/// A write whose inbound chain is one single segment reassembles to
/// exactly that segment.
pub proof fn lemma_single_segment_reassembly(a: Seq<u8>)
    ensures
        seq![a].flatten() == a,
{
    assert(seq![a].drop_first() =~= Seq::<Seq<u8>>::empty());
    assert(Seq::<Seq<u8>>::empty().flatten() == Seq::<u8>::empty());
    assert(seq![a].flatten() == a + Seq::<u8>::empty());
    assert(a + Seq::<u8>::empty() =~= a);
}

/// A write whose inbound chain is two segments reassembles to their
/// concatenation in order.
pub proof fn lemma_two_segment_reassembly(a: Seq<u8>, b: Seq<u8>)
    ensures
        seq![a, b].flatten() == a + b,
{
    assert(seq![a, b].drop_first() =~= seq![b]);
    lemma_single_segment_reassembly(b);
    assert(seq![a, b].flatten() =~= a + b);
}

/// Chaining one more segment appends its bytes after everything before
/// it: reassembly is concatenation in order, however the payload is
/// split.
pub proof fn lemma_reassembly_appends_in_order(segs: Seq<Seq<u8>>, s: Seq<u8>)
    ensures
        segs.push(s).flatten() == segs.flatten() + s,
{
    segs.lemma_flatten_push(s);
}

/// The subscription a peer ends up with never exceeds the
/// characteristic's own capabilities: each effective bit holds exactly
/// when the peer requested it and the characteristic supports it, and a
/// peer that requested nothing ends up subscribed to nothing.
pub proof fn lemma_effective_sub_within_capabilities(
    props: NimbleProperties,
    cur_notify: bool,
    cur_indicate: bool,
)
    ensures
        spec_effective_sub(props, cur_notify, cur_indicate).spec_contains(NIMBLE_SUB_NOTIFY) <==> (
        cur_notify && props.spec_contains(BLE_GATT_CHR_F_NOTIFY)),
        spec_effective_sub(props, cur_notify, cur_indicate).spec_contains(NIMBLE_SUB_INDICATE)
            <==> (cur_indicate && props.spec_contains(BLE_GATT_CHR_F_INDICATE)),
        spec_effective_sub(props, cur_notify, cur_indicate).spec_is_empty() <==> !(cur_notify
            && props.spec_contains(BLE_GATT_CHR_F_NOTIFY)) && !(cur_indicate
            && props.spec_contains(BLE_GATT_CHR_F_INDICATE)),
{
    let a: u16 = if cur_notify && props.spec_contains(BLE_GATT_CHR_F_NOTIFY) {
        1
    } else {
        0
    };
    let b: u16 = if cur_indicate && props.spec_contains(BLE_GATT_CHR_F_INDICATE) {
        2
    } else {
        0
    };
    assert(((a | b) & 1 == 1 <==> a == 1) && ((a | b) & 2 == 2 <==> b == 2) && ((a | b) == 0 <==> (
    a == 0 && b == 0))) by (bit_vector)
        requires
            a == 0 || a == 1,
            b == 0 || b == 2,
    ;
}

/// A fan-out pass over an empty subscription list sends nothing and
/// leaves the indication-in-flight state alone.
pub proof fn lemma_notify_no_subscribers(
    subs: Seq<(u16, NimbleSub)>,
    props: NimbleProperties,
    value: Seq<u8>,
    attr_handle: u16,
    tbl: Seq<ConnEntry>,
    pending0: Set<u16>,
)
    requires
        subs.len() == 0,
    ensures
        spec_pass_out(subs, subs.len() as int, props, value, attr_handle, tbl, pending0) == Seq::<
            OutboundView,
        >::empty(),
        spec_pass_pending(subs, subs.len() as int, props, tbl, pending0) == pending0,
{
}

/// A connection subscribed to Indicate, on a characteristic that supports
/// it, with an indication already in flight: the fan-out sends it nothing
/// and its in-flight mark stays set.
pub proof fn lemma_indicate_in_flight_skipped(
    props: NimbleProperties,
    value: Seq<u8>,
    attr_handle: u16,
    conn: u16,
    sub: NimbleSub,
    mtu: u16,
    rc: i32,
    pending: Set<u16>,
)
    requires
        pending.contains(conn),
        sub.spec_contains(NIMBLE_SUB_INDICATE),
        props.spec_contains(BLE_GATT_CHR_F_INDICATE),
    ensures
        spec_step_emits(props, value, attr_handle, conn, sub, mtu, pending) == Seq::<
            OutboundView,
        >::empty(),
        spec_step_pending(props, conn, sub, mtu, rc, pending) == pending,
        spec_step_pending(props, conn, sub, mtu, rc, pending).contains(conn),
{
    let b = sub.bits;
    assert(b & 2 == 2 ==> b != 0) by (bit_vector);
}

/// While an indication is in flight for a connection, a whole fan-out
/// pass — over any subscription list — sends that connection no further
/// indication, and leaves its in-flight mark set.
pub proof fn lemma_no_second_indication_while_in_flight(
    subs: Seq<(u16, NimbleSub)>,
    n: int,
    props: NimbleProperties,
    value: Seq<u8>,
    attr_handle: u16,
    tbl: Seq<ConnEntry>,
    pending0: Set<u16>,
    conn: u16,
)
    requires
        pending0.contains(conn),
    ensures
        spec_pass_pending(subs, n, props, tbl, pending0).contains(conn),
        forall|k: int|
            0 <= k < spec_pass_out(subs, n, props, value, attr_handle, tbl, pending0).len() ==> !((
            #[trigger] spec_pass_out(subs, n, props, value, attr_handle, tbl, pending0)[k]).is_indicate
                && spec_pass_out(subs, n, props, value, attr_handle, tbl, pending0)[k].conn_handle
                == conn),
    decreases n,
{
    if n > 0 {
        lemma_no_second_indication_while_in_flight(
            subs,
            n - 1,
            props,
            value,
            attr_handle,
            tbl,
            pending0,
            conn,
        );
        let prev = spec_pass_out(subs, n - 1, props, value, attr_handle, tbl, pending0);
        let p = spec_pass_pending(subs, n - 1, props, tbl, pending0);
        let e = spec_step_emits(
            props,
            value,
            attr_handle,
            subs[n - 1].0,
            subs[n - 1].1,
            spec_mtu_of(tbl, subs[n - 1].0),
            p,
        );
        assert forall|k: int| 0 <= k < e.len() implies !((#[trigger] e[k]).is_indicate
            && e[k].conn_handle == conn) by {
            if subs[n - 1].0 == conn {
                assert(p.contains(conn));
            }
        }
        let cur = spec_pass_out(subs, n, props, value, attr_handle, tbl, pending0);
        assert forall|k: int| 0 <= k < cur.len() implies !((#[trigger] cur[k]).is_indicate
            && cur[k].conn_handle == conn) by {
            if k < prev.len() {
                assert(cur[k] == prev[k]);
            } else {
                assert(cur[k] == e[k - prev.len()]);
            }
        }
    }
}

/// A connection subscribed to both Notify and Indicate, on a
/// characteristic that supports only Notify, is sent exactly one
/// notification and no indication, and the in-flight state is untouched.
pub proof fn lemma_notify_only_capability(
    props: NimbleProperties,
    value: Seq<u8>,
    attr_handle: u16,
    conn: u16,
    sub: NimbleSub,
    mtu: u16,
    rc: i32,
    pending: Set<u16>,
)
    requires
        spec_usable_payload(mtu) != 0,
        sub.spec_contains(NIMBLE_SUB_NOTIFY),
        sub.spec_contains(NIMBLE_SUB_INDICATE),
        props.spec_contains(BLE_GATT_CHR_F_NOTIFY),
        !props.spec_contains(BLE_GATT_CHR_F_INDICATE),
    ensures
        spec_step_emits(props, value, attr_handle, conn, sub, mtu, pending) == seq![
            OutboundView { is_indicate: false, conn_handle: conn, attr_handle, data: value },
        ],
        spec_step_pending(props, conn, sub, mtu, rc, pending) == pending,
{
    let b = sub.bits;
    assert(b & 1 == 1 ==> b != 0) by (bit_vector);
}

} // verus!
