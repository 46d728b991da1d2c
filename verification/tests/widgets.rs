use can_monitor::frames::heartbeat_request;
use can_monitor::widgets::graph::visible_window;
use can_monitor::widgets::heartbeat::CanMessageEntry as StatEntry;
use can_monitor::widgets::table::{row_key, CanMessageEntry as RowEntry};
use can_monitor::widgets::{CanMessageWidget, GraphWidget, SDORequestButton, TableWidget};
use can_monitor::{CanOpenPacket, CanPacket, CanPacketIn, CanPacketOut, Timestamp};

fn at(nanos: u64) -> Timestamp {
    Timestamp { nanos }
}

fn frame(id: u32) -> CanPacket {
    CanPacket::new(id, 0, [0; 8])
}

#[test]
fn duration_since_saturates() {
    assert_eq!(at(10).duration_since(at(3)), 7);
    assert_eq!(at(3).duration_since(at(10)), 0);
    assert_eq!(at(5).duration_since(at(5)), 0);
}

#[test]
fn stat_entry_new_and_update() {
    let mut e = StatEntry::new(frame(0x181), at(100));
    assert_eq!((e.id, e.count, e.last_received, e.delta_nanos), (0x181, 0, at(100), 0));
    e.update(&CanPacketIn(frame(0x182), at(350)));
    assert_eq!((e.id, e.count, e.last_received, e.delta_nanos), (0x182, 1, at(350), 250));
    e.update(&CanPacketIn(frame(0x182), at(300)));
    assert_eq!((e.count, e.last_received, e.delta_nanos), (2, at(300), 0));
}

#[test]
fn stat_widget_counts_per_identifier() {
    let mut w = CanMessageWidget::default();
    assert!(w.entries().is_empty());
    let a = CanPacketIn(frame(0x200), at(1_000));
    let b = CanPacketIn(frame(0x100), at(1_500));
    let c = CanPacketIn(frame(0x200), at(4_000));
    for (p, now) in [(a, at(1_200)), (b, at(1_600)), (c, at(4_100))] {
        assert!(w.can_record(p));
        w.on_can_packet(&p, now);
    }
    let entries = w.entries();
    assert_eq!(entries.len(), 2);
    assert_eq!(entries[0].0, 0x100);
    assert_eq!(entries[0].1.count, 1);
    assert_eq!(entries[0].1.delta_nanos, 0);
    assert_eq!(entries[1].0, 0x200);
    assert_eq!(entries[1].1.count, 2);
    assert_eq!(entries[1].1.delta_nanos, 3_000);
    assert_eq!(entries[1].1.last_received, at(4_000));
}

#[test]
fn stat_widget_first_delta_against_creation_time() {
    // a fresh entry starts at `now`; the frame stamped later gives a positive delta
    let mut w = CanMessageWidget::default();
    w.on_can_packet(&CanPacketIn(frame(0x300), at(900)), at(400));
    assert_eq!(w.entries()[0].1.delta_nanos, 500);
}

#[test]
fn row_entry_new_and_update() {
    let mut e = RowEntry::new(CanPacket::new(0x5F5, 0, [1; 8]), at(10));
    assert_eq!((e.id, e.data, e.count, e.delta_nanos), (0x5F5, [1; 8], 0, 0));
    e.update(&CanPacketIn(CanPacket::new(0x5F6, 0, [2; 8]), at(25)));
    assert_eq!((e.id, e.data, e.count, e.last_received, e.delta_nanos), (0x5F6, [2; 8], 1, at(25), 15));
}

#[test]
fn row_keys() {
    let mut sdo = frame(0x5F5);
    sdo.set_index(0x0410);
    assert_eq!(row_key(&sdo), (0x5F5u64 << 32) | 0x1004);
    let mut pdo = frame(0x185);
    pdo.set_index(0x0410);
    assert_eq!(row_key(&pdo), 0x185u64 << 32);
    assert_eq!(row_key(&frame(0x701)), 0x701u64 << 32);
    // law: the identifier is the high half of the key
    assert_eq!(row_key(&sdo) >> 32, 0x5F5);
}

#[test]
fn table_rows_split_sdo_objects() {
    let mut t = TableWidget::default();
    let mut r1 = frame(0x640);
    r1.set_index(0x0410);
    let mut r2 = frame(0x640);
    r2.set_index(0x0810);
    let p1 = CanPacketIn(r1, at(10));
    let p2 = CanPacketIn(r2, at(20));
    let p3 = CanPacketIn(r1, at(50));
    let p4 = CanPacketIn(frame(0x185), at(60));
    for p in [p1, p2, p3, p4] {
        assert!(t.can_record(p));
        t.on_can_packet(&p, p.1);
    }
    let rows = t.rows();
    assert_eq!(rows.len(), 3);
    assert_eq!(rows[0].0, 0x185u64 << 32);
    assert_eq!(rows[1].0, (0x640u64 << 32) | 0x1004);
    assert_eq!(rows[1].1.count, 2);
    assert_eq!(rows[1].1.delta_nanos, 40);
    assert_eq!(rows[2].0, (0x640u64 << 32) | 0x1008);
    assert_eq!(rows[2].1.count, 1);
}

#[test]
fn graph_counts_function_code_0x100_per_second() {
    let mut g = GraphWidget::new(at(1_000_000_000));
    assert_eq!(g.start(), at(1_000_000_000));
    let counted = CanPacketIn(frame(0x105), at(3_500_000_000));
    let other = CanPacketIn(frame(0x185), at(3_500_000_000));
    g.on_can_packet(&other);
    assert!(g.points().is_empty());
    g.on_can_packet(&counted);
    g.on_can_packet(&counted);
    g.on_can_packet(&CanPacketIn(frame(0x17F), at(1_999_999_999)));
    g.on_can_packet(&CanPacketIn(frame(0x100), at(500)));
    assert_eq!(g.points(), vec![(0, 2), (2, 2)]);
    assert!(g.can_record(counted));
}

#[test]
fn graph_visible_window() {
    assert_eq!(visible_window(10, 4), (6, 10));
    assert_eq!(visible_window(4, 4), (0, 4));
    assert_eq!(visible_window(3, 8), (0, 3));
    assert_eq!(visible_window(0, 0), (0, 0));
    assert_eq!(visible_window(5, 0), (5, 5));
}

#[test]
fn sdo_request_button_packet() {
    let p = SDORequestButton::default().request_packet();
    assert_eq!(p.id, 0x5F5);
    assert_eq!(p.flags, 1);
    assert_eq!(p.data, [1, 100, 0, 0, 0, 0, 0, 0]);
    assert_eq!(p.crc, 0);
    assert_eq!(p.get_node_id(), 0x75);
}

#[test]
fn heartbeat_request_packet() {
    let p = heartbeat_request();
    assert_eq!(p.id, 0x640);
    assert_eq!(p.flags, 8);
    assert_eq!(p.data, [0x2F, 0x04, 0x10, 0, 2, 0, 0, 0]);
    assert_eq!(p.crc, 0);
    assert_eq!(p.get_sdo_index(), 0x0410);
    assert_eq!(p.to_bytes(), [0x40, 0x06, 0, 0, 8, 0x2F, 0x04, 0x10, 0, 2, 0, 0, 0, 0]);
}

#[test]
fn outgoing_event_keeps_packet_and_time() {
    let out = CanPacketOut(frame(0x601), at(77));
    assert_eq!(out.0.id, 0x601);
    assert_eq!(out.1, at(77));
}

#[test]
fn graph_history_counts_add_up() {
    let start = at(2_000_000_000);
    let mut g = GraphWidget::new(start);
    let ids = [0x101u32, 0x185, 0x17F, 0x100, 0x701, 0x142, 0x100];
    let times = [2_100_000_000u64, 2_200_000_000, 4_000_000_000, 1_000, 4_999_999_999, 9_000_000_000, 2_000_000_000];
    let mut counted = 0u64;
    for (id, t) in ids.iter().zip(times.iter()) {
        let p = CanPacketIn(frame(*id), at(*t));
        if (*id & !0x7F) == 0x100 {
            counted += 1;
        }
        g.on_can_packet(&p);
    }
    let points = g.points();
    assert_eq!(points.iter().map(|(_, c)| c).sum::<u64>(), counted);
    assert_eq!(points, vec![(0, 3), (2, 1), (7, 1)]);
    assert!(points.iter().all(|(_, c)| *c >= 1));
}

#[test]
fn statistics_history_per_identifier() {
    let mut w = CanMessageWidget::default();
    let ids = [0x10u32, 0x20, 0x10, 0x30, 0x10, 0x20];
    for (i, id) in ids.iter().enumerate() {
        let t = at(100 * (i as u64 + 1));
        w.on_can_packet(&CanPacketIn(frame(*id), t), t);
    }
    let entries = w.entries();
    let summary: Vec<(u32, u32, i32, Timestamp)> =
        entries.iter().map(|(k, e)| (*k, e.id, e.count, e.last_received)).collect();
    assert_eq!(summary, vec![(0x10, 0x10, 3, at(500)), (0x20, 0x20, 2, at(600)), (0x30, 0x30, 1, at(400))]);
}

#[test]
fn table_history_rows_keep_identifier() {
    let mut t = TableWidget::default();
    let mut a = frame(0x5C1);
    a.set_index(0x0120);
    let mut b = frame(0x5C1);
    b.set_index(0x0120);
    b.data[7] = 9;
    for (i, p) in [a, frame(0x181), b].iter().enumerate() {
        let time = at(10 * (i as u64 + 1));
        t.on_can_packet(&CanPacketIn(*p, time), time);
    }
    let rows = t.rows();
    assert_eq!(rows.len(), 2);
    for (k, e) in &rows {
        assert_eq!(k >> 32, e.id as u64);
    }
    assert_eq!(rows[1].0, (0x5C1u64 << 32) | 0x2001);
    assert_eq!(rows[1].1.count, 2);
    assert_eq!(rows[1].1.data[7], 9);
    assert_eq!(rows[1].1.last_received, at(30));
}
