use can_monitor::{CanOpenPacket, CanOpenType, CanPacket};

fn blank(id: u32) -> CanPacket {
    CanPacket::new(id, 0, [0; 8])
}

#[test]
fn new_sets_fields_and_clears_checksum() {
    let p = CanPacket::new(0x123, 0x45, [1, 2, 3, 4, 5, 6, 7, 8]);
    assert_eq!(p.id, 0x123);
    assert_eq!(p.flags, 0x45);
    assert_eq!(p.data, [1, 2, 3, 4, 5, 6, 7, 8]);
    assert_eq!(p.crc, 0);
}

#[test]
fn node_id_is_low_seven_bits() {
    assert_eq!(blank(0x5F5).get_node_id(), 0x75);
    assert_eq!(blank(0x700).get_node_id(), 0);
    assert_eq!(blank(0xFFFF_FFFF).get_node_id(), 0x7F);
}

#[test]
fn set_node_id_xors_then_ors() {
    let mut p = blank(0x580);
    p.set_node_id(0x40);
    assert_eq!(p.id, 0x5F5);
    let mut q = blank(0x640);
    q.set_node_id(0x40);
    assert_eq!(q.id, 0x675);
    let mut r = blank(0x123);
    r.set_node_id(0x05);
    assert_eq!(r.id, 0x157);
}

#[test]
fn node_id_written_bits_are_read_back() {
    // law: every bit of the written node id is present in what is read back
    let mut p = blank(0x623);
    p.set_node_id(0x11);
    assert_eq!(p.get_node_id() & 0x11, 0x11);
    // law: exact read back when the old node id was 0x75
    let mut q = blank(0x675);
    q.set_node_id(0x2A);
    assert_eq!(q.get_node_id(), 0x2A);
}

#[test]
fn set_index_writes_low_byte_first_and_reads_high_byte_first() {
    let mut p = blank(0x600);
    p.set_index(0x1234);
    assert_eq!(p.data[1], 0x34);
    assert_eq!(p.data[2], 0x12);
    assert_eq!(p.get_sdo_index(), 0x3412);
    let mut q = blank(0x600);
    q.set_index(0x4242);
    assert_eq!(q.get_sdo_index(), 0x4242);
}

#[test]
fn subindex_reads_back() {
    let mut p = blank(0x600);
    p.set_subindex(7);
    assert_eq!(p.get_sdo_subindex(), 7);
    assert_eq!(p.data[3], 7);
}

#[test]
fn index_and_subindex_are_independent() {
    let mut a = blank(0x600);
    a.set_index(0x2001);
    a.set_subindex(3);
    let mut b = blank(0x600);
    b.set_subindex(3);
    b.set_index(0x2001);
    assert_eq!(a, b);
    assert_eq!(a.get_sdo_subindex(), 3);
    assert_eq!(a.get_sdo_index(), 0x0120);
}

#[test]
fn set_cmd_keeps_low_five_bits_and_last_write_wins() {
    let mut p = CanPacket::new(0x600, 0, [0x0A, 0, 0, 0, 0, 0, 0, 0]);
    p.set_cmd(0xFF);
    assert_eq!(p.data[0], 0xEA);
    p.set_cmd(0x40);
    assert_eq!(p.data[0], 0x4A);
    let mut q = CanPacket::new(0x600, 0, [0x0A, 0, 0, 0, 0, 0, 0, 0]);
    q.set_cmd(0x40);
    assert_eq!(p, q);
}

#[test]
fn set_data_length_replaces_low_nibble_of_flags() {
    let mut p = CanPacket::new(0x600, 0xA5, [0; 8]);
    p.set_data_length(1);
    assert_eq!(p.flags, 0xA1);
    p.set_data_length(0x1F);
    assert_eq!(p.flags, 0xAF);
}

#[test]
fn set_sdo_length_values() {
    let expected_from_zero = [0x13u8, 0x0F, 0x0B, 0x07, 0x03];
    let expected_from_e0 = [0xF3u8, 0xEF, 0xEB, 0xE7, 0xE3];
    for l in 0..5u8 {
        let mut p = blank(0x600);
        p.set_sdo_length(l);
        assert_eq!(p.data[0], expected_from_zero[l as usize]);
        assert_eq!(p.flags, 8);
        let mut q = CanPacket::new(0x600, 0x30, [0xE0, 0, 0, 0, 0, 0, 0, 0]);
        q.set_sdo_length(l);
        assert_eq!(q.data[0], expected_from_e0[l as usize]);
        assert_eq!(q.flags, 0x38);
    }
}

#[test]
fn cmd_and_sdo_length_commute() {
    let mut a = blank(0x600);
    a.set_cmd(0x20);
    a.set_sdo_length(2);
    let mut b = blank(0x600);
    b.set_sdo_length(2);
    b.set_cmd(0x20);
    assert_eq!(a, b);
    assert_eq!(a.data[0], 0x2B);
}

#[test]
fn get_type_by_function_code() {
    assert_eq!(blank(0x700).get_type(), CanOpenType::Heartbeat);
    assert_eq!(blank(0x77F).get_type(), CanOpenType::Heartbeat);
    assert_eq!(blank(0x580).get_type(), CanOpenType::SdoRequest);
    assert_eq!(blank(0x5F5).get_type(), CanOpenType::SdoRequest);
    assert_eq!(blank(0x600).get_type(), CanOpenType::SdoRequest);
    assert_eq!(blank(0x640).get_type(), CanOpenType::SdoRequest);
    assert_eq!(blank(0x6FF).get_type(), CanOpenType::SdoRequest);
    assert_eq!(blank(0x57F).get_type(), CanOpenType::Unknown);
    assert_eq!(blank(0x780).get_type(), CanOpenType::Unknown);
    assert_eq!(blank(0x185).get_type(), CanOpenType::Unknown);
    assert_eq!(blank(0x100).get_type(), CanOpenType::Unknown);
}

#[test]
fn type_ignores_node_id() {
    let mut p = blank(0x580);
    for n in 0..0x80u8 {
        p.set_node_id(n);
        assert_eq!(p.get_type(), CanOpenType::SdoRequest);
    }
}
