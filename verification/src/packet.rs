use vstd::prelude::*;

verus! {

/// A classic CAN frame: an 11/29-bit identifier, a flag byte whose low four
/// bits hold the data length code, eight data bytes and a checksum byte.
#[derive(Debug, Clone, Copy, PartialEq, Eq)]
pub struct CanPacket {
    pub id: u32,
    pub flags: u8,
    pub data: [u8; 8],
    pub crc: u8,
}

impl CanPacket {
    /// A frame with the given identifier, flags and data, and a zero checksum.
    pub fn new(id: u32, flags: u8, data: [u8; 8]) -> (p: Self)
        ensures
            p.id == id,
            p.flags == flags,
            p.data == data,
            p.crc == 0,
    {
        Self { id, flags, data, crc: 0 }
    }
}

/// The kind of an extended frame, as carried in its header.
#[derive(Debug, Clone, Copy, PartialEq, Eq, Structural)]
pub enum XLCanPacketType {
    StatusMessage,
    UnknownMessage,
}

impl XLCanPacketType {
    /// The number by which the kind is written on the wire.
    pub open spec fn spec_code(self) -> u16 {
        match self {
            XLCanPacketType::StatusMessage => 0,
            XLCanPacketType::UnknownMessage => 1,
        }
    }

    /// The number by which the kind is written on the wire.
    #[verifier::when_used_as_spec(spec_code)]
    pub fn code(self) -> (c: u16)
        ensures
            c == self.spec_code(),
    {
        match self {
            XLCanPacketType::StatusMessage => 0,
            XLCanPacketType::UnknownMessage => 1,
        }
    }

    /// The kind written on the wire as `code`, if there is one.
    pub open spec fn spec_from_code(code: u16) -> Option<XLCanPacketType> {
        if code == 0 {
            Some(XLCanPacketType::StatusMessage)
        } else if code == 1 {
            Some(XLCanPacketType::UnknownMessage)
        } else {
            None
        }
    }

    /// The kind written on the wire as `code`, if there is one.
    pub fn from_code(code: u16) -> (t: Option<XLCanPacketType>)
        ensures
            t == Self::spec_from_code(code),
    {
        if code == 0 {
            Some(XLCanPacketType::StatusMessage)
        } else if code == 1 {
            Some(XLCanPacketType::UnknownMessage)
        } else {
            None
        }
    }
}

/// Every kind is read back from its code, and only the codes of kinds name a kind.
pub proof fn law_packet_type_code_roundtrip(t: XLCanPacketType, code: u16)
    ensures
        XLCanPacketType::spec_from_code(t.spec_code()) == Some(t),
        XLCanPacketType::spec_from_code(code) matches Some(u) ==> u.spec_code() == code,
{
}

/// The header that precedes the payload of an extended frame.
#[derive(Debug, Clone, Copy, PartialEq, Eq, Structural)]
pub struct XLCanPacketHeader {
    pub id: u16,
    pub packet_type: XLCanPacketType,
    pub node_id: u8,
    pub length: u16,
}

impl Default for XLCanPacketHeader {
    /// An empty header of unknown kind: every number zero.
    fn default() -> (h: Self)
        ensures
            h.id == 0,
            h.packet_type == XLCanPacketType::UnknownMessage,
            h.node_id == 0,
            h.length == 0,
    {
        Self { id: 0, packet_type: XLCanPacketType::UnknownMessage, node_id: 0, length: 0 }
    }
}

/// An extended frame: a header and a payload of any length.
#[derive(Debug, Clone)]
pub struct XLCanPacket {
    pub header: XLCanPacketHeader,
    pub data: Vec<u8>,
}

} // verus!
