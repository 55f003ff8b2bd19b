//! Behavioral tests for characteristic configuration, access events,
//! subscription updates and the notify/indicate fan-out.

use nimble_gatt::access::{AccessOp, GattAccessCtxt, OutMsg, Outbound};
use nimble_gatt::access::{BLE_ATT_ERR_INSUFFICIENT_RES, BLE_ATT_ERR_UNLIKELY, BLE_ATT_SUCCESS};
use nimble_gatt::att_value::AttValue;
use nimble_gatt::characteristic::{BLECharacteristic, SubscribeEvent, NULL_HANDLE};
use nimble_gatt::characteristic::{NoopReadCallback, NoopWriteCallback};
use nimble_gatt::characteristic::{ReadCallback, WriteCallback};
use nimble_gatt::conn::{ConnDesc, ConnEntry, ConnTable};
use nimble_gatt::descriptor::DscDefEntry;
use nimble_gatt::flags::{NimbleProperties, NimbleSub};
use nimble_gatt::flags::{BLE_GATT_CHR_F_INDICATE, BLE_GATT_CHR_F_NOTIFY};
use nimble_gatt::flags::{BLE_GATT_CHR_F_READ, BLE_GATT_CHR_F_WRITE};
use nimble_gatt::flags::{NIMBLE_SUB_INDICATE, NIMBLE_SUB_NOTIFY};
use nimble_gatt::server::BLEServer;
use nimble_gatt::uuid::BleUuid;

type PlainCharacteristic = BLECharacteristic<NoopReadCallback, NoopWriteCallback>;

/// Read hook that counts its calls and overwrites the value.
struct DynamicRead {
    calls: usize,
    bytes: Vec<u8>,
}

impl ReadCallback for DynamicRead {
    fn on_read_event(&mut self, value: &mut AttValue, _desc: &ConnDesc) {
        self.calls += 1;
        value.set_value(&self.bytes);
    }
}

/// Write hook that records what it was handed.
struct RecordingWrite {
    calls: usize,
    received: Vec<u8>,
    conn_handle: u16,
}

impl WriteCallback for RecordingWrite {
    fn on_write_event(&mut self, data: &[u8], desc: &ConnDesc) {
        self.calls += 1;
        self.received = data.to_vec();
        self.conn_handle = desc.conn_handle;
    }
}

fn uuid(v: u128) -> BleUuid {
    BleUuid::from_u128(v)
}

fn read_ctxt(u: BleUuid, pkthdr_len: u16, cap: usize) -> GattAccessCtxt {
    GattAccessCtxt {
        op: AccessOp::ReadChr,
        uuid: u,
        pkthdr_len,
        inbound: Vec::new(),
        outbound: OutMsg::with_capacity(cap),
    }
}

fn write_ctxt(u: BleUuid, segments: Vec<Vec<u8>>) -> GattAccessCtxt {
    GattAccessCtxt {
        op: AccessOp::WriteChr,
        uuid: u,
        pkthdr_len: 0,
        inbound: segments,
        outbound: OutMsg::with_capacity(0),
    }
}

#[test]
fn handle_starts_as_unregistered_sentinel() {
    let c = PlainCharacteristic::new(uuid(0x1234), NimbleProperties::from_bits(BLE_GATT_CHR_F_READ));
    assert_eq!(c.handle, NULL_HANDLE);
    assert_eq!(c.handle, 0xFFFF);
}

#[test]
fn handle_takes_assigned_value() {
    let mut c = PlainCharacteristic::new(uuid(1), NimbleProperties::from_bits(BLE_GATT_CHR_F_READ));
    c.set_handle(42);
    assert_eq!(c.handle, 42);
}

#[test]
fn descriptor_table_empty_without_descriptors() {
    let c = PlainCharacteristic::new(uuid(1), NimbleProperties::from_bits(BLE_GATT_CHR_F_READ));
    assert!(c.construct_svc_def_descriptors().is_none());
}

#[test]
fn descriptor_table_holds_rows_in_order_plus_sentinel() {
    let mut c = PlainCharacteristic::new(uuid(1), NimbleProperties::from_bits(BLE_GATT_CHR_F_READ));
    let first = c.create_descriptor(
        BleUuid::from_u16(0x2902),
        NimbleProperties::from_bits(BLE_GATT_CHR_F_READ),
    );
    let second = c.create_descriptor(
        BleUuid::from_u16(0x2901),
        NimbleProperties::from_bits(BLE_GATT_CHR_F_WRITE),
    );
    assert_eq!(first, 0);
    assert_eq!(second, 1);
    let table = c.construct_svc_def_descriptors().unwrap();
    assert_eq!(table.len(), 3);
    assert_eq!(
        table[0],
        DscDefEntry::Dsc {
            uuid: BleUuid::from_u16(0x2902),
            att_flags: BLE_GATT_CHR_F_READ,
            min_key_size: 0,
            arg: 0,
        }
    );
    assert_eq!(
        table[1],
        DscDefEntry::Dsc {
            uuid: BleUuid::from_u16(0x2901),
            att_flags: BLE_GATT_CHR_F_WRITE,
            min_key_size: 0,
            arg: 1,
        }
    );
    assert_eq!(table[2], DscDefEntry::Sentinel);
}

#[test]
fn descriptor_table_rebuilt_on_every_call() {
    let mut c = PlainCharacteristic::new(uuid(1), NimbleProperties::from_bits(BLE_GATT_CHR_F_READ));
    c.create_descriptor(uuid(0xA), NimbleProperties::from_bits(BLE_GATT_CHR_F_READ));
    let t1 = c.construct_svc_def_descriptors().unwrap();
    let t2 = c.construct_svc_def_descriptors().unwrap();
    assert_eq!(t1, t2);
    assert_eq!(t2.len(), 2);
}

#[test]
fn descriptor_value_settable_through_owner() {
    let mut c = PlainCharacteristic::new(uuid(1), NimbleProperties::from_bits(BLE_GATT_CHR_F_READ));
    let idx = c.create_descriptor(uuid(0xA), NimbleProperties::from_bits(BLE_GATT_CHR_F_READ));
    c.set_descriptor_value(idx, &[7, 8]);
    assert_eq!(c.descriptors[idx].value.value(), &[7, 8]);
}

#[test]
fn read_serializes_post_callback_value() {
    let mut c: BLECharacteristic<DynamicRead, NoopWriteCallback> =
        BLECharacteristic::new(uuid(0x55), NimbleProperties::from_bits(BLE_GATT_CHR_F_READ));
    c.set_value(&[1, 2, 3]);
    c.on_read(DynamicRead { calls: 0, bytes: vec![9, 9] });
    let mut ctxt = read_ctxt(uuid(0x55), 0, 64);
    let status = c.handle_gap_event(Some(ConnDesc { conn_handle: 1 }), 23, &mut ctxt);
    assert_eq!(status, BLE_ATT_SUCCESS);
    assert_eq!(ctxt.outbound.data(), &[9, 9]);
    assert_eq!(c.value.value(), &[9, 9]);
    assert_eq!(c.on_read.as_ref().unwrap().calls, 1);
}

#[test]
fn read_callback_skipped_during_long_read_continuation() {
    let mut c: BLECharacteristic<DynamicRead, NoopWriteCallback> =
        BLECharacteristic::new(uuid(0x55), NimbleProperties::from_bits(BLE_GATT_CHR_F_READ));
    // Value longer than the usable payload of MTU 23 (20 bytes), and a
    // short inbound header: a long-read continuation is in progress.
    c.set_value(&[0u8; 32]);
    c.on_read(DynamicRead { calls: 0, bytes: vec![9] });
    let mut ctxt = read_ctxt(uuid(0x55), 0, 64);
    let status = c.handle_gap_event(Some(ConnDesc { conn_handle: 1 }), 23, &mut ctxt);
    assert_eq!(status, BLE_ATT_SUCCESS);
    assert_eq!(c.on_read.as_ref().unwrap().calls, 0);
    assert_eq!(ctxt.outbound.data(), &[0u8; 32][..]);
}

#[test]
fn read_callback_runs_when_header_signals_long_read() {
    let mut c: BLECharacteristic<DynamicRead, NoopWriteCallback> =
        BLECharacteristic::new(uuid(0x55), NimbleProperties::from_bits(BLE_GATT_CHR_F_READ));
    c.set_value(&[0u8; 32]);
    c.on_read(DynamicRead { calls: 0, bytes: vec![4, 5] });
    let mut ctxt = read_ctxt(uuid(0x55), 9, 64);
    let status = c.handle_gap_event(Some(ConnDesc { conn_handle: 1 }), 23, &mut ctxt);
    assert_eq!(status, BLE_ATT_SUCCESS);
    assert_eq!(c.on_read.as_ref().unwrap().calls, 1);
    assert_eq!(ctxt.outbound.data(), &[4, 5]);
}

#[test]
fn read_without_room_reports_insufficient_resources() {
    let mut c = PlainCharacteristic::new(uuid(0x55), NimbleProperties::from_bits(BLE_GATT_CHR_F_READ));
    c.set_value(&[1, 2, 3, 4]);
    let mut ctxt = read_ctxt(uuid(0x55), 0, 3);
    let status = c.handle_gap_event(Some(ConnDesc { conn_handle: 1 }), 23, &mut ctxt);
    assert_eq!(status, BLE_ATT_ERR_INSUFFICIENT_RES);
    assert_eq!(ctxt.outbound.data(), &[] as &[u8]);
    assert_eq!(c.value.value(), &[1, 2, 3, 4]);
}

#[test]
fn access_with_wrong_uuid_fails_unlikely() {
    let mut c = PlainCharacteristic::new(uuid(0x55), NimbleProperties::from_bits(BLE_GATT_CHR_F_READ));
    c.set_value(&[1]);
    let mut ctxt = read_ctxt(uuid(0x56), 0, 64);
    let status = c.handle_gap_event(Some(ConnDesc { conn_handle: 1 }), 23, &mut ctxt);
    assert_eq!(status, BLE_ATT_ERR_UNLIKELY);
    assert_eq!(ctxt.outbound.data(), &[] as &[u8]);
    assert_eq!(c.value.value(), &[1]);
}

#[test]
fn access_with_unknown_op_fails_unlikely() {
    let mut c = PlainCharacteristic::new(uuid(0x55), NimbleProperties::from_bits(BLE_GATT_CHR_F_READ));
    let mut ctxt = GattAccessCtxt {
        op: AccessOp::Other,
        uuid: uuid(0x55),
        pkthdr_len: 0,
        inbound: Vec::new(),
        outbound: OutMsg::with_capacity(16),
    };
    let status = c.handle_gap_event(Some(ConnDesc { conn_handle: 1 }), 23, &mut ctxt);
    assert_eq!(status, BLE_ATT_ERR_UNLIKELY);
}

#[test]
fn write_reassembles_single_segment() {
    let mut c = PlainCharacteristic::new(uuid(0x66), NimbleProperties::from_bits(BLE_GATT_CHR_F_WRITE));
    let mut ctxt = write_ctxt(uuid(0x66), vec![vec![1, 2, 3]]);
    let status = c.handle_gap_event(Some(ConnDesc { conn_handle: 1 }), 23, &mut ctxt);
    assert_eq!(status, BLE_ATT_SUCCESS);
    assert_eq!(c.value.value(), &[1, 2, 3]);
}

#[test]
fn write_reassembles_chained_segments_in_order() {
    let mut one = PlainCharacteristic::new(uuid(0x66), NimbleProperties::from_bits(BLE_GATT_CHR_F_WRITE));
    let mut many = PlainCharacteristic::new(uuid(0x66), NimbleProperties::from_bits(BLE_GATT_CHR_F_WRITE));
    let mut whole = write_ctxt(uuid(0x66), vec![vec![1, 2, 3, 4, 5]]);
    let mut split = write_ctxt(uuid(0x66), vec![vec![1], vec![], vec![2, 3], vec![4, 5]]);
    one.handle_gap_event(Some(ConnDesc { conn_handle: 1 }), 23, &mut whole);
    many.handle_gap_event(Some(ConnDesc { conn_handle: 1 }), 23, &mut split);
    assert_eq!(one.value.value(), &[1, 2, 3, 4, 5]);
    assert_eq!(many.value.value(), one.value.value());
}

#[test]
fn write_overwrites_previous_value() {
    let mut c = PlainCharacteristic::new(uuid(0x66), NimbleProperties::from_bits(BLE_GATT_CHR_F_WRITE));
    c.set_value(&[8, 8, 8, 8]);
    let mut ctxt = write_ctxt(uuid(0x66), vec![vec![1]]);
    c.handle_gap_event(Some(ConnDesc { conn_handle: 1 }), 23, &mut ctxt);
    assert_eq!(c.value.value(), &[1]);
}

#[test]
fn end_to_end_write_invokes_callback_with_reassembled_bytes() {
    let mut c: BLECharacteristic<NoopReadCallback, RecordingWrite> = BLECharacteristic::new(
        uuid(0x77),
        NimbleProperties::from_bits(BLE_GATT_CHR_F_READ | BLE_GATT_CHR_F_WRITE),
    );
    c.on_write(RecordingWrite { calls: 0, received: Vec::new(), conn_handle: 0 });
    let mut ctxt = write_ctxt(uuid(0x77), vec![vec![0x01, 0x02], vec![0x03]]);
    let status = c.handle_gap_event(Some(ConnDesc { conn_handle: 9 }), 23, &mut ctxt);
    assert_eq!(status, BLE_ATT_SUCCESS);
    assert_eq!(c.value.value(), &[0x01, 0x02, 0x03]);
    let cb = c.on_write.as_ref().unwrap();
    assert_eq!(cb.calls, 1);
    assert_eq!(cb.received, vec![0x01, 0x02, 0x03]);
    assert_eq!(cb.conn_handle, 9);
}

#[test]
fn write_commits_value_but_skips_callback_without_connection() {
    let mut c: BLECharacteristic<NoopReadCallback, RecordingWrite> =
        BLECharacteristic::new(uuid(0x77), NimbleProperties::from_bits(BLE_GATT_CHR_F_WRITE));
    c.on_write(RecordingWrite { calls: 0, received: Vec::new(), conn_handle: 0 });
    let mut ctxt = write_ctxt(uuid(0x77), vec![vec![5, 6]]);
    let status = c.handle_gap_event(None, 23, &mut ctxt);
    assert_eq!(status, BLE_ATT_SUCCESS);
    assert_eq!(c.value.value(), &[5, 6]);
    assert_eq!(c.on_write.as_ref().unwrap().calls, 0);
}

fn subscribe_event(conn: u16, notify: bool, indicate: bool) -> SubscribeEvent {
    SubscribeEvent { conn_handle: conn, cur_notify: notify, cur_indicate: indicate }
}

#[test]
fn subscription_capped_to_capabilities() {
    let mut c = PlainCharacteristic::new(uuid(1), NimbleProperties::from_bits(BLE_GATT_CHR_F_NOTIFY));
    c.subscribe(&subscribe_event(3, true, true), Some(ConnDesc { conn_handle: 3 }));
    assert_eq!(c.subscribed_list, vec![(3, NimbleSub::from_bits(NIMBLE_SUB_NOTIFY))]);
}

#[test]
fn subscription_empty_request_removes_entry() {
    let mut c = PlainCharacteristic::new(uuid(1), NimbleProperties::from_bits(BLE_GATT_CHR_F_NOTIFY));
    c.subscribe(&subscribe_event(3, true, false), Some(ConnDesc { conn_handle: 3 }));
    assert_eq!(c.subscribed_list.len(), 1);
    c.subscribe(&subscribe_event(3, false, false), Some(ConnDesc { conn_handle: 3 }));
    assert_eq!(c.subscribed_list.len(), 0);
}

#[test]
fn subscription_created_when_absent_and_replaced_when_present() {
    let mut c = PlainCharacteristic::new(
        uuid(1),
        NimbleProperties::from_bits(BLE_GATT_CHR_F_NOTIFY | BLE_GATT_CHR_F_INDICATE),
    );
    c.subscribe(&subscribe_event(3, true, false), Some(ConnDesc { conn_handle: 3 }));
    assert_eq!(c.subscribed_list, vec![(3, NimbleSub::from_bits(NIMBLE_SUB_NOTIFY))]);
    c.subscribe(&subscribe_event(3, false, true), Some(ConnDesc { conn_handle: 3 }));
    assert_eq!(c.subscribed_list, vec![(3, NimbleSub::from_bits(NIMBLE_SUB_INDICATE))]);
}

#[test]
fn subscription_dropped_when_connection_vanished() {
    let mut c = PlainCharacteristic::new(uuid(1), NimbleProperties::from_bits(BLE_GATT_CHR_F_NOTIFY));
    c.subscribe(&subscribe_event(3, true, false), None);
    assert_eq!(c.subscribed_list.len(), 0);
}

fn conn_table(entries: Vec<ConnEntry>) -> ConnTable {
    let mut t = ConnTable::new();
    t.entries = entries;
    t
}

#[test]
fn notify_with_zero_subscribers_sends_nothing() {
    let c = PlainCharacteristic::new(uuid(1), NimbleProperties::from_bits(BLE_GATT_CHR_F_NOTIFY));
    let mut server = BLEServer::new();
    let tbl = conn_table(vec![ConnEntry { conn_handle: 3, mtu: 23, indicate_status: 0 }]);
    let mut out: Vec<Outbound> = Vec::new();
    c.notify(&mut server, &tbl, &mut out);
    assert_eq!(out.len(), 0);
}

#[test]
fn notify_targets_only_subscribed_connection() {
    let mut c = PlainCharacteristic::new(uuid(1), NimbleProperties::from_bits(BLE_GATT_CHR_F_NOTIFY));
    c.set_handle(0x20);
    c.set_value(&[42]);
    // A subscribes to Notify; B requests nothing and gets no entry.
    c.subscribe(&subscribe_event(1, true, false), Some(ConnDesc { conn_handle: 1 }));
    c.subscribe(&subscribe_event(2, false, false), Some(ConnDesc { conn_handle: 2 }));
    let mut server = BLEServer::new();
    let tbl = conn_table(vec![
        ConnEntry { conn_handle: 1, mtu: 23, indicate_status: 0 },
        ConnEntry { conn_handle: 2, mtu: 23, indicate_status: 0 },
    ]);
    let mut out: Vec<Outbound> = Vec::new();
    c.notify(&mut server, &tbl, &mut out);
    assert_eq!(out.len(), 1);
    assert!(!out[0].is_indicate);
    assert_eq!(out[0].conn_handle, 1);
    assert_eq!(out[0].attr_handle, 0x20);
    assert_eq!(out[0].data, vec![42]);
}

#[test]
fn notify_skips_connection_with_no_usable_payload() {
    let mut c = PlainCharacteristic::new(uuid(1), NimbleProperties::from_bits(BLE_GATT_CHR_F_NOTIFY));
    c.subscribe(&subscribe_event(1, true, false), Some(ConnDesc { conn_handle: 1 }));
    let mut server = BLEServer::new();
    // MTU of 3 leaves no payload; connection 1 is skipped.
    let tbl = conn_table(vec![ConnEntry { conn_handle: 1, mtu: 3, indicate_status: 0 }]);
    let mut out: Vec<Outbound> = Vec::new();
    c.notify(&mut server, &tbl, &mut out);
    assert_eq!(out.len(), 0);
}

#[test]
fn notify_prefers_indicate_and_marks_in_flight() {
    let mut c = PlainCharacteristic::new(
        uuid(1),
        NimbleProperties::from_bits(BLE_GATT_CHR_F_NOTIFY | BLE_GATT_CHR_F_INDICATE),
    );
    c.set_handle(0x21);
    c.set_value(&[7, 7]);
    c.subscribe(&subscribe_event(4, true, true), Some(ConnDesc { conn_handle: 4 }));
    let mut server = BLEServer::new();
    let tbl = conn_table(vec![ConnEntry { conn_handle: 4, mtu: 23, indicate_status: 0 }]);
    let mut out: Vec<Outbound> = Vec::new();
    c.notify(&mut server, &tbl, &mut out);
    assert_eq!(out.len(), 1);
    assert!(out[0].is_indicate);
    assert_eq!(out[0].conn_handle, 4);
    assert_eq!(out[0].data, vec![7, 7]);
    assert!(server.is_indicate_waiting(4));
}

#[test]
fn notify_skips_indicate_already_in_flight() {
    let mut c = PlainCharacteristic::new(uuid(1), NimbleProperties::from_bits(BLE_GATT_CHR_F_INDICATE));
    c.set_value(&[1]);
    c.subscribe(&subscribe_event(4, false, true), Some(ConnDesc { conn_handle: 4 }));
    let mut server = BLEServer::new();
    assert!(server.set_indicate_wait(4));
    let tbl = conn_table(vec![ConnEntry { conn_handle: 4, mtu: 23, indicate_status: 0 }]);
    let mut out: Vec<Outbound> = Vec::new();
    c.notify(&mut server, &tbl, &mut out);
    assert_eq!(out.len(), 0);
    assert!(server.is_indicate_waiting(4));
}

#[test]
fn notify_rolls_back_in_flight_on_failed_submission() {
    let mut c = PlainCharacteristic::new(uuid(1), NimbleProperties::from_bits(BLE_GATT_CHR_F_INDICATE));
    c.set_value(&[1]);
    c.subscribe(&subscribe_event(4, false, true), Some(ConnDesc { conn_handle: 4 }));
    let mut server = BLEServer::new();
    let tbl = conn_table(vec![ConnEntry { conn_handle: 4, mtu: 23, indicate_status: -1 }]);
    let mut out: Vec<Outbound> = Vec::new();
    c.notify(&mut server, &tbl, &mut out);
    // The submission was handed out once, but no acknowledgment will come.
    assert_eq!(out.len(), 1);
    assert!(out[0].is_indicate);
    assert!(!server.is_indicate_waiting(4));
}

#[test]
fn notify_sends_single_notification_when_indicate_unsupported() {
    let mut c = PlainCharacteristic::new(uuid(1), NimbleProperties::from_bits(BLE_GATT_CHR_F_NOTIFY));
    c.set_value(&[5]);
    // The peer asks for both; capability restricts the entry to Notify.
    c.subscribe(&subscribe_event(4, true, true), Some(ConnDesc { conn_handle: 4 }));
    let mut server = BLEServer::new();
    let tbl = conn_table(vec![ConnEntry { conn_handle: 4, mtu: 23, indicate_status: 0 }]);
    let mut out: Vec<Outbound> = Vec::new();
    c.notify(&mut server, &tbl, &mut out);
    assert_eq!(out.len(), 1);
    assert!(!out[0].is_indicate);
    assert!(!server.is_indicate_waiting(4));
}

#[test]
fn notify_visits_every_subscriber_once() {
    let mut c = PlainCharacteristic::new(uuid(1), NimbleProperties::from_bits(BLE_GATT_CHR_F_NOTIFY));
    c.set_value(&[3]);
    c.subscribe(&subscribe_event(1, true, false), Some(ConnDesc { conn_handle: 1 }));
    c.subscribe(&subscribe_event(2, true, false), Some(ConnDesc { conn_handle: 2 }));
    let mut server = BLEServer::new();
    let tbl = conn_table(vec![
        ConnEntry { conn_handle: 1, mtu: 23, indicate_status: 0 },
        ConnEntry { conn_handle: 2, mtu: 23, indicate_status: 0 },
    ]);
    let mut out: Vec<Outbound> = Vec::new();
    c.notify(&mut server, &tbl, &mut out);
    assert_eq!(out.len(), 2);
    assert_eq!(out[0].conn_handle, 1);
    assert_eq!(out[1].conn_handle, 2);
}

#[test]
fn set_value_replaces_bytes_without_notifying() {
    let mut c = PlainCharacteristic::new(uuid(1), NimbleProperties::from_bits(BLE_GATT_CHR_F_READ));
    c.set_value(&[1, 2]);
    c.set_value(&[3]);
    assert_eq!(c.value.value(), &[3]);
}

#[test]
fn out_msg_append_is_all_or_nothing() {
    let mut m = OutMsg::with_capacity(4);
    assert!(m.append(&[1, 2, 3]));
    assert!(!m.append(&[4, 5]));
    assert_eq!(m.data(), &[1, 2, 3]);
    assert!(m.append(&[4]));
    assert_eq!(m.data(), &[1, 2, 3, 4]);
}
