use can_monitor::wire::{datagram_kind, DatagramKind, XLDecodeError, CAN_PACKET_SIZE, XL_HEADER_SIZE};
use can_monitor::{CanPacket, XLCanPacket, XLCanPacketHeader, XLCanPacketType};

#[test]
fn can_packet_bytes_layout() {
    let mut p = CanPacket::new(0x1234_5678, 0x08, [1, 2, 3, 4, 5, 6, 7, 8]);
    p.crc = 0x99;
    let b = p.to_bytes();
    assert_eq!(b.len(), CAN_PACKET_SIZE);
    assert_eq!(b, [0x78, 0x56, 0x34, 0x12, 0x08, 1, 2, 3, 4, 5, 6, 7, 8, 0x99]);
}

#[test]
fn can_packet_roundtrip() {
    let mut p = CanPacket::new(0xDEAD_BEEF, 0xF1, [9, 8, 7, 6, 5, 4, 3, 2]);
    p.crc = 0x42;
    assert_eq!(CanPacket::from_bytes(&p.to_bytes()), p);
    let b = [0xFFu8, 0, 0x80, 0x01, 0x7F, 0, 1, 2, 3, 4, 5, 6, 0xFE, 0x10];
    let q = CanPacket::from_bytes(&b);
    assert_eq!(q.id, 0x0180_00FF);
    assert_eq!(q.flags, 0x7F);
    assert_eq!(q.data, [0, 1, 2, 3, 4, 5, 6, 0xFE]);
    assert_eq!(q.crc, 0x10);
    assert_eq!(q.to_bytes(), b);
}

#[test]
fn header_bytes_layout() {
    let h = XLCanPacketHeader {
        id: 0x0102,
        packet_type: XLCanPacketType::StatusMessage,
        node_id: 0x30,
        length: 0x0A0B,
    };
    assert_eq!(h.to_bytes().len(), XL_HEADER_SIZE);
    assert_eq!(h.to_bytes(), [0x02, 0x01, 0x00, 0x00, 0x30, 0x0B, 0x0A]);
    assert_eq!(XLCanPacketHeader::from_bytes(&h.to_bytes()), Ok(h));
}

#[test]
fn header_default_is_empty_unknown() {
    let h = XLCanPacketHeader::default();
    assert_eq!(h.id, 0);
    assert_eq!(h.packet_type, XLCanPacketType::UnknownMessage);
    assert_eq!(h.node_id, 0);
    assert_eq!(h.length, 0);
    assert_eq!(h.to_bytes(), [0, 0, 1, 0, 0, 0, 0]);
}

#[test]
fn header_too_short() {
    assert_eq!(XLCanPacketHeader::from_bytes(&[]), Err(XLDecodeError::TooShort));
    assert_eq!(XLCanPacketHeader::from_bytes(&[0, 0, 1, 0, 0, 0]), Err(XLDecodeError::TooShort));
    assert_eq!(XLCanPacket::from_bytes(&[1, 2, 3]).err(), Some(XLDecodeError::TooShort));
}

#[test]
fn header_unknown_packet_type() {
    assert_eq!(
        XLCanPacketHeader::from_bytes(&[0, 0, 2, 0, 0, 0, 0]),
        Err(XLDecodeError::UnknownPacketType(2))
    );
    assert_eq!(
        XLCanPacketHeader::from_bytes(&[0, 0, 0, 1, 0, 0, 0, 9]),
        Err(XLDecodeError::UnknownPacketType(0x0100))
    );
}

#[test]
fn packet_type_codes() {
    assert_eq!(XLCanPacketType::StatusMessage.code(), 0);
    assert_eq!(XLCanPacketType::UnknownMessage.code(), 1);
    assert_eq!(XLCanPacketType::from_code(0), Some(XLCanPacketType::StatusMessage));
    assert_eq!(XLCanPacketType::from_code(1), Some(XLCanPacketType::UnknownMessage));
    assert_eq!(XLCanPacketType::from_code(2), None);
}

#[test]
fn xl_packet_bytes_and_roundtrip() {
    let x = XLCanPacket {
        header: XLCanPacketHeader {
            id: 0,
            packet_type: XLCanPacketType::UnknownMessage,
            node_id: 0x30,
            length: 10,
        },
        data: vec![5; 10],
    };
    let b = x.to_bytes();
    let mut expected = vec![0u8, 0, 1, 0, 0x30, 10, 0];
    expected.extend_from_slice(&[5; 10]);
    assert_eq!(b, expected);
    let y = XLCanPacket::from_bytes(&b).unwrap();
    assert_eq!(y.header, x.header);
    assert_eq!(y.data, x.data);
}

#[test]
fn xl_packet_payload_is_everything_after_header() {
    let b = [7u8, 0, 0, 0, 0x11, 0xFF, 0xFF, 0xAA, 0xBB];
    let x = XLCanPacket::from_bytes(&b).unwrap();
    assert_eq!(x.header.id, 7);
    assert_eq!(x.header.packet_type, XLCanPacketType::StatusMessage);
    assert_eq!(x.header.node_id, 0x11);
    assert_eq!(x.header.length, 0xFFFF);
    assert_eq!(x.data, vec![0xAA, 0xBB]);
    let empty = XLCanPacket::from_bytes(&b[..7]).unwrap();
    assert!(empty.data.is_empty());
}

#[test]
fn datagram_kinds() {
    assert_eq!(datagram_kind(14), DatagramKind::Can);
    assert_eq!(datagram_kind(17), DatagramKind::XL);
    assert_eq!(datagram_kind(13), DatagramKind::XL);
    assert_eq!(datagram_kind(0), DatagramKind::XL);
}
