use sqtt::markers::{column_is_sorted, reassemble_markers};
use sqtt::packet::{layout, sqtt_packet_kind};
use sqtt::{
    build_packet_length_table, marker_events, merge_columns, parse_sqtt, sqtt_packet_length,
    MarkerEvent, MergeItem, PacketColumns, PacketKind, SqttMarkerType, SqttUserdata, UserdataError,
};

const USERDATA_2: u64 = 0x030D08 / 4;
const USERDATA_3: u64 = 0x030D0C / 4;

fn item(kind: usize, index: usize) -> MergeItem {
    MergeItem { kind, index }
}

/// Bytes of a stream of 64-bit packets.
fn stream(packets: &[u64]) -> Vec<u8> {
    packets.iter().flat_map(|p| p.to_le_bytes()).collect()
}

fn reg_write(reg: u64, val: u32) -> u64 {
    9 | (reg << 16) | ((val as u64) << 32)
}

fn initiator(ty: u64, val: u64) -> u64 {
    1 | (7 << 4) | (ty << 18) | (val << 20)
}

fn first_word(id: u32, len: u32, api: u32) -> u32 {
    id | (len << 4) | (api << 7)
}

#[test]
fn packet_lengths() {
    let cases: [(u8, Option<u8>); 22] = [
        (0x00, Some(4)), (0x01, Some(64)), (0x11, Some(64)), (0x21, Some(64)), (0x31, Some(64)),
        (0x41, Some(96)), (0x51, Some(24)), (0x61, Some(24)), (0xE1, Some(32)), (0x71, Some(64)),
        (0x02, Some(20)), (0x0B, Some(12)), (0x04, Some(24)), (0x05, Some(20)), (0x06, Some(52)),
        (0x16, Some(28)), (0x08, Some(8)), (0x09, Some(64)), (0x0C, Some(32)), (0x0D, Some(12)),
        (0x07, None), (0x0F, Some(8)),
    ];
    for (sel, len) in cases {
        assert_eq!(sqtt_packet_length(sel), len, "selector {:#x}", sel);
    }
    let table = build_packet_length_table();
    assert_eq!(table.len(), 256);
    assert_eq!(table[0x41], Some(96));
    assert_eq!(table[0xF7], None);
    assert_eq!(table[0x0E], Some(8));
}

#[test]
fn packet_kinds_and_layouts() {
    assert_eq!(sqtt_packet_kind(0x09), Some(PacketKind::RegWrite));
    assert_eq!(sqtt_packet_kind(0x71), Some(PacketKind::Initiator));
    assert_eq!(sqtt_packet_kind(0x61), Some(PacketKind::EventA));
    assert_eq!(sqtt_packet_kind(0xE1), Some(PacketKind::EventB));
    assert_eq!(sqtt_packet_kind(0x11), None);
    assert_eq!(sqtt_packet_kind(0x00), None);
    assert_eq!(sqtt_packet_kind(0x07), None);
    assert_eq!(PacketKind::Packet0xf.index(), 18);
    let l = layout(PacketKind::RegWrite);
    assert_eq!(l.len(), 7);
    assert_eq!((l[6].bottom, l[6].width, l[6].delta), (32, 32, false));
}

#[test]
fn merge_orders_by_sequence_then_column() {
    let a = vec![0u32, 2, 4];
    let b = vec![1u32, 2, 3];
    let order = merge_columns(&vec![&a, &b]);
    assert_eq!(order, vec![item(0, 0), item(1, 0), item(0, 1), item(1, 1), item(1, 2), item(0, 2)]);
}

#[test]
fn merge_with_empty_and_three_columns() {
    let empty: Vec<u32> = vec![];
    let a = vec![5u32, 6];
    assert_eq!(merge_columns(&vec![&empty, &a]), vec![item(1, 0), item(1, 1)]);
    assert_eq!(merge_columns(&vec![&empty, &empty]), vec![]);
    let c = vec![1u32, 1, 9];
    let d = vec![0u32, 7];
    let order = merge_columns(&vec![&a, &c, &d]);
    assert_eq!(order.len(), 7);
    let seqs: Vec<u32> = order.iter().map(|m| [&a, &c, &d][m.kind][m.index]).collect();
    assert_eq!(seqs, vec![0, 1, 1, 5, 6, 7, 9]);
}

#[test]
fn sortedness_check() {
    assert!(column_is_sorted(&vec![]));
    assert!(column_is_sorted(&vec![1, 1, 2]));
    assert!(!column_is_sorted(&vec![2, 1]));
}

#[test]
fn userdata_construction() {
    assert_eq!(SqttUserdata::new(vec![]).err(), Some(UserdataError::Empty));
    let w0 = first_word(6, 2, 0x12345);
    assert_eq!(
        SqttUserdata::new(vec![w0]).err(),
        Some(UserdataError::LengthMismatch { len: 1, declared: 2 })
    );
    let u = SqttUserdata::new(vec![w0, 77]).unwrap();
    assert_eq!(u.id(), 6);
    assert_eq!(u.api_type(), 0x12345);
    assert_eq!(SqttUserdata::len(w0), 2);
    assert_eq!(u.marker_type(), SqttMarkerType::RGP_SQTT_MARKER_IDENTIFIER_GENERAL_API);
    assert_eq!(u.words().clone(), vec![w0, 77]);
    assert_eq!(SqttMarkerType::from_code(15).code(), 15);
}

#[test]
fn two_word_marker_gives_one_event() {
    let w0 = first_word(6, 2, 0xABCDE);
    let data = stream(&[reg_write(USERDATA_2, w0), reg_write(USERDATA_3, 1234)]);
    let chunk = parse_sqtt(&data).unwrap();
    let events = marker_events(&chunk);
    assert_eq!(events, vec![MarkerEvent { api_type: 0xABCDE, start: 0, end: 0 }]);
}

#[test]
fn other_registers_are_ignored() {
    let w0 = first_word(6, 2, 9);
    let data = stream(&[reg_write(USERDATA_2, w0), reg_write(USERDATA_2 + 5, 1), reg_write(USERDATA_2, 3)]);
    let events = marker_events(&parse_sqtt(&data).unwrap());
    assert_eq!(events.len(), 1);
    assert_eq!(events[0].api_type, 9);
}

#[test]
fn marker_initiator_drops_incomplete_marker() {
    let w0 = first_word(6, 2, 77);
    let data = stream(&[reg_write(USERDATA_2, w0), initiator(0, 53 | (1 << 20))]);
    let chunk = parse_sqtt(&data).unwrap();
    assert_eq!(marker_events(&chunk), vec![]);
    // The words that follow the initiator start a fresh marker.
    let w1 = first_word(6, 2, 88);
    let data = stream(&[reg_write(USERDATA_2, w0), initiator(0, 53), reg_write(USERDATA_2, w1), reg_write(USERDATA_3, 0)]);
    let events = marker_events(&parse_sqtt(&data).unwrap());
    assert_eq!(events, vec![MarkerEvent { api_type: 88, start: 0, end: 0 }]);
}

#[test]
fn other_initiators_keep_the_words() {
    let w0 = first_word(6, 2, 77);
    let data = stream(&[reg_write(USERDATA_2, w0), initiator(1, 53), initiator(0, 54), reg_write(USERDATA_2, 5)]);
    let events = marker_events(&parse_sqtt(&data).unwrap());
    assert_eq!(events, vec![MarkerEvent { api_type: 77, start: 0, end: 0 }]);
}

#[test]
fn reassembly_follows_the_given_order() {
    let mut rw = PacketColumns::new();
    rw.seq = vec![0, 1];
    rw.timestamp = vec![0, 0];
    rw.fields = vec![
        vec![0, 0, 0, 0, USERDATA_2, first_word(1, 1, 42) as u64],
        vec![0, 0, 0, 0, USERDATA_2, first_word(1, 1, 43) as u64],
    ];
    let init = PacketColumns::new();
    let events = reassemble_markers(&rw, &init, &vec![item(0, 1), item(0, 0)]);
    let codes: Vec<u32> = events.iter().map(|e| e.api_type).collect();
    assert_eq!(codes, vec![43, 42]);
    assert_eq!(rw.len(), 2);
}
