//! The byte layout of frames on the wire: every field in declaration order,
//! packed without padding, multi-byte numbers little-endian.
use vstd::prelude::*;
use crate::packet::{CanPacket, XLCanPacket, XLCanPacketHeader, XLCanPacketType};

verus! {

/// Bytes in an encoded [`CanPacket`]: identifier (4), flags (1), data (8), checksum (1).
pub const CAN_PACKET_SIZE: usize = 14;

/// Bytes in an encoded [`XLCanPacketHeader`]: id (2), kind (2), node id (1), length (2).
pub const XL_HEADER_SIZE: usize = 7;

/// What a datagram of a given length holds.
#[derive(Debug, Clone, Copy, PartialEq, Eq, Structural)]
pub enum DatagramKind {
    /// A classic frame: exactly [`CAN_PACKET_SIZE`] bytes.
    Can,
    /// An extended frame: any other length.
    XL,
}

/// A datagram of exactly [`CAN_PACKET_SIZE`] bytes holds a classic frame, any
/// other datagram an extended one.
pub fn datagram_kind(len: usize) -> (k: DatagramKind)
    ensures
        k == (if len == CAN_PACKET_SIZE { DatagramKind::Can } else { DatagramKind::XL }),
{
    if len == CAN_PACKET_SIZE {
        DatagramKind::Can
    } else {
        DatagramKind::XL
    }
}

/// The two bytes of `x`, low byte first.
pub open spec fn u16_le_bytes(x: u16) -> Seq<u8> {
    seq![(x & 0xFFu16) as u8, ((x >> 8u16) & 0xFFu16) as u8]
}

/// The four bytes of `x`, low byte first.
pub open spec fn u32_le_bytes(x: u32) -> Seq<u8> {
    seq![
        (x & 0xFFu32) as u8,
        ((x >> 8u32) & 0xFFu32) as u8,
        ((x >> 16u32) & 0xFFu32) as u8,
        ((x >> 24u32) & 0xFFu32) as u8,
    ]
}

/// The encoding of a frame.
pub open spec fn can_packet_bytes(p: CanPacket) -> Seq<u8> {
    u32_le_bytes(p.id) + seq![p.flags] + p.data@ + seq![p.crc]
}

/// The encoding of an extended-frame header.
pub open spec fn xl_header_bytes(h: XLCanPacketHeader) -> Seq<u8> {
    u16_le_bytes(h.id) + u16_le_bytes(h.packet_type.spec_code()) + seq![h.node_id]
        + u16_le_bytes(h.length)
}

/// The encoding of an extended frame: its header, then its payload.
pub open spec fn xl_packet_bytes(x: XLCanPacket) -> Seq<u8> {
    xl_header_bytes(x.header) + x.data@
}

/// The number whose little-endian bytes are `b0, b1`.
fn u16_from_le(b0: u8, b1: u8) -> (x: u16)
    ensures
        u16_le_bytes(x) == seq![b0, b1],
{
    let x = (b0 as u16) | ((b1 as u16) << 8);
    assert((x & 0xFFu16) as u8 == b0 && ((x >> 8u16) & 0xFFu16) as u8 == b1) by (bit_vector)
        requires
            x == (b0 as u16) | ((b1 as u16) << 8u16),
    ;
    assert(u16_le_bytes(x) =~= seq![b0, b1]);
    x
}

/// The number whose little-endian bytes are `b0, b1, b2, b3`.
fn u32_from_le(b0: u8, b1: u8, b2: u8, b3: u8) -> (x: u32)
    ensures
        u32_le_bytes(x) == seq![b0, b1, b2, b3],
{
    let x = (b0 as u32) | ((b1 as u32) << 8) | ((b2 as u32) << 16) | ((b3 as u32) << 24);
    assert((x & 0xFFu32) as u8 == b0 && ((x >> 8u32) & 0xFFu32) as u8 == b1 && ((x >> 16u32)
        & 0xFFu32) as u8 == b2 && ((x >> 24u32) & 0xFFu32) as u8 == b3) by (bit_vector)
        requires
            x == (b0 as u32) | ((b1 as u32) << 8u32) | ((b2 as u32) << 16u32) | ((b3 as u32)
                << 24u32),
    ;
    assert(u32_le_bytes(x) =~= seq![b0, b1, b2, b3]);
    x
}

/// Two numbers with the same little-endian bytes are equal.
pub proof fn lemma_u16_le_bytes_injective(x: u16, y: u16)
    requires
        u16_le_bytes(x) == u16_le_bytes(y),
    ensures
        x == y,
{
    assert(u16_le_bytes(x)[0] == u16_le_bytes(y)[0]);
    assert(u16_le_bytes(x)[1] == u16_le_bytes(y)[1]);
    assert(((x & 0xFFu16) as u8 == (y & 0xFFu16) as u8 && ((x >> 8u16) & 0xFFu16) as u8 == ((y
        >> 8u16) & 0xFFu16) as u8) ==> x == y) by (bit_vector);
}

/// Two numbers with the same little-endian bytes are equal.
pub proof fn lemma_u32_le_bytes_injective(x: u32, y: u32)
    requires
        u32_le_bytes(x) == u32_le_bytes(y),
    ensures
        x == y,
{
    assert(u32_le_bytes(x)[0] == u32_le_bytes(y)[0]);
    assert(u32_le_bytes(x)[1] == u32_le_bytes(y)[1]);
    assert(u32_le_bytes(x)[2] == u32_le_bytes(y)[2]);
    assert(u32_le_bytes(x)[3] == u32_le_bytes(y)[3]);
    assert(((x & 0xFFu32) as u8 == (y & 0xFFu32) as u8 && ((x >> 8u32) & 0xFFu32) as u8 == ((y
        >> 8u32) & 0xFFu32) as u8 && ((x >> 16u32) & 0xFFu32) as u8 == ((y >> 16u32) & 0xFFu32) as u8
        && ((x >> 24u32) & 0xFFu32) as u8 == ((y >> 24u32) & 0xFFu32) as u8) ==> x == y)
        by (bit_vector);
}

/// Decoding undoes encoding: two frames with the same encoding are the same
/// frame, so `from_bytes(&p.to_bytes())` gives back `p`.
pub proof fn law_can_packet_roundtrip(p: CanPacket, q: CanPacket)
    requires
        can_packet_bytes(p) == can_packet_bytes(q),
    ensures
        p == q,
{
    let bp = can_packet_bytes(p);
    let bq = can_packet_bytes(q);
    assert(u32_le_bytes(p.id) =~= bp.subrange(0, 4));
    assert(u32_le_bytes(q.id) =~= bq.subrange(0, 4));
    lemma_u32_le_bytes_injective(p.id, q.id);
    assert(bp[4] == p.flags && bq[4] == q.flags);
    assert(bp[13] == p.crc && bq[13] == q.crc);
    assert forall|i: int| 0 <= i < 8 implies p.data[i] == q.data[i] by {
        assert(bp[5 + i] == p.data[i]);
        assert(bq[5 + i] == q.data[i]);
    }
    assert(p.data =~= q.data);
}

impl CanPacket {
    /// The frame as it is sent: see [`can_packet_bytes`].
    pub fn to_bytes(&self) -> (b: [u8; 14])
        ensures
            b@ == can_packet_bytes(*self),
    {
        let id = self.id;
        let d = self.data;
        let b = [
            (id & 0xFF) as u8,
            ((id >> 8) & 0xFF) as u8,
            ((id >> 16) & 0xFF) as u8,
            ((id >> 24) & 0xFF) as u8,
            self.flags,
            d[0],
            d[1],
            d[2],
            d[3],
            d[4],
            d[5],
            d[6],
            d[7],
            self.crc,
        ];
        assert(b@ =~= can_packet_bytes(*self));
        b
    }

    /// The frame whose encoding is `b`. Every fourteen bytes encode exactly one frame.
    pub fn from_bytes(b: &[u8; 14]) -> (p: CanPacket)
        ensures
            can_packet_bytes(p) == b@,
    {
        let id = u32_from_le(b[0], b[1], b[2], b[3]);
        let data = [b[5], b[6], b[7], b[8], b[9], b[10], b[11], b[12]];
        let p = CanPacket { id, flags: b[4], data, crc: b[13] };
        assert(can_packet_bytes(p) =~= b@);
        p
    }
}

/// Why a byte string is not an extended frame.
#[derive(Debug, Clone, Copy, PartialEq, Eq, Structural)]
pub enum XLDecodeError {
    /// Fewer bytes than a header takes.
    TooShort,
    /// The kind field holds a number that names no kind.
    UnknownPacketType(u16),
}

/// What decoding a header from the start of `b` gives.
pub open spec fn xl_header_decodes(b: Seq<u8>, r: Result<XLCanPacketHeader, XLDecodeError>) -> bool {
    match r {
        Ok(h) => b.len() >= XL_HEADER_SIZE && xl_header_bytes(h) == b.subrange(
            0,
            XL_HEADER_SIZE as int,
        ),
        Err(XLDecodeError::TooShort) => b.len() < XL_HEADER_SIZE,
        Err(XLDecodeError::UnknownPacketType(c)) => b.len() >= XL_HEADER_SIZE
            && XLCanPacketType::spec_from_code(c) is None && u16_le_bytes(c) == b.subrange(2, 4),
    }
}

/// What decoding an extended frame from `b` gives: the header at its start,
/// then everything after the header as the payload.
pub open spec fn xl_packet_decodes(b: Seq<u8>, r: Result<XLCanPacket, XLDecodeError>) -> bool {
    match r {
        Ok(x) => xl_header_decodes(b, Ok(x.header)) && x.data@ == b.subrange(
            XL_HEADER_SIZE as int,
            b.len() as int,
        ),
        Err(e) => xl_header_decodes(b, Err(e)),
    }
}

impl XLCanPacketHeader {
    /// The header as it is sent: see [`xl_header_bytes`].
    pub fn to_bytes(&self) -> (b: [u8; 7])
        ensures
            b@ == xl_header_bytes(*self),
    {
        let code = self.packet_type.code();
        let b = [
            (self.id & 0xFF) as u8,
            ((self.id >> 8) & 0xFF) as u8,
            (code & 0xFF) as u8,
            ((code >> 8) & 0xFF) as u8,
            self.node_id,
            (self.length & 0xFF) as u8,
            ((self.length >> 8) & 0xFF) as u8,
        ];
        assert(b@ =~= xl_header_bytes(*self));
        b
    }

    /// The header at the start of `b`. It fails when `b` is shorter than a
    /// header, or when the kind field names no kind.
    pub fn from_bytes(b: &[u8]) -> (r: Result<XLCanPacketHeader, XLDecodeError>)
        ensures
            xl_header_decodes(b@, r),
    {
        if b.len() < XL_HEADER_SIZE {
            return Err(XLDecodeError::TooShort);
        }
        let id = u16_from_le(b[0], b[1]);
        let code = u16_from_le(b[2], b[3]);
        let length = u16_from_le(b[5], b[6]);
        match XLCanPacketType::from_code(code) {
            None => {
                assert(seq![b[2], b[3]] =~= b@.subrange(2, 4));
                Err(XLDecodeError::UnknownPacketType(code))
            },
            Some(packet_type) => {
                let h = XLCanPacketHeader { id, packet_type, node_id: b[4], length };
                assert(packet_type.spec_code() == code);
                assert(xl_header_bytes(h) =~= b@.subrange(0, XL_HEADER_SIZE as int));
                Ok(h)
            },
        }
    }
}

impl XLCanPacket {
    /// The frame as it is sent: the header, then the payload.
    pub fn to_bytes(&self) -> (b: Vec<u8>)
        ensures
            b@ == xl_packet_bytes(*self),
    {
        let header = self.header.to_bytes();
        let mut b: Vec<u8> = Vec::new();
        for i in 0..XL_HEADER_SIZE
            invariant
                b@ == header@.subrange(0, i as int),
        {
            b.push(header[i]);
            assert(b@ =~= header@.subrange(0, i + 1));
        }
        let n = self.data.len();
        for i in 0..n
            invariant
                n == self.data@.len(),
                b@ == header@ + self.data@.subrange(0, i as int),
        {
            b.push(self.data[i]);
            assert(b@ =~= header@ + self.data@.subrange(0, i + 1));
        }
        assert(self.data@.subrange(0, n as int) =~= self.data@);
        b
    }

    /// The frame in `b`: a header, then everything after it as the payload.
    /// It fails exactly when the header does.
    pub fn from_bytes(b: &[u8]) -> (r: Result<XLCanPacket, XLDecodeError>)
        ensures
            xl_packet_decodes(b@, r),
    {
        let header = match XLCanPacketHeader::from_bytes(b) {
            Ok(h) => h,
            Err(e) => {
                return Err(e);
            },
        };
        let n = b.len();
        let mut data: Vec<u8> = Vec::new();
        for i in XL_HEADER_SIZE..n
            invariant
                n == b@.len(),
                XL_HEADER_SIZE <= n,
                data@ == b@.subrange(XL_HEADER_SIZE as int, i as int),
        {
            data.push(b[i]);
            assert(data@ =~= b@.subrange(XL_HEADER_SIZE as int, i + 1));
        }
        Ok(XLCanPacket { header, data })
    }
}

/// Decoding undoes encoding for extended frames: decoding the bytes of `x`
/// succeeds and gives back its header and its payload.
pub proof fn law_xl_packet_roundtrip(x: XLCanPacket, r: Result<XLCanPacket, XLDecodeError>)
    requires
        xl_packet_decodes(xl_packet_bytes(x), r),
    ensures
        r matches Ok(y) && y.header == x.header && y.data@ == x.data@,
{
    let b = xl_packet_bytes(x);
    assert(b.subrange(0, XL_HEADER_SIZE as int) =~= xl_header_bytes(x.header));
    assert(b.subrange(2, 4) =~= u16_le_bytes(x.header.packet_type.spec_code()));
    match r {
        Ok(y) => {
            law_xl_header_roundtrip(x.header, y.header);
            assert(y.data@ =~= x.data@);
        },
        Err(e) => {
            match e {
                XLDecodeError::TooShort => {},
                XLDecodeError::UnknownPacketType(c) => {
                    lemma_u16_le_bytes_injective(c, x.header.packet_type.spec_code());
                },
            }
        },
    }
}

/// Two headers with the same encoding are the same header.
pub proof fn law_xl_header_roundtrip(h: XLCanPacketHeader, g: XLCanPacketHeader)
    requires
        xl_header_bytes(h) == xl_header_bytes(g),
    ensures
        h == g,
{
    let bh = xl_header_bytes(h);
    let bg = xl_header_bytes(g);
    assert(bh.subrange(0, 2) =~= u16_le_bytes(h.id));
    assert(bg.subrange(0, 2) =~= u16_le_bytes(g.id));
    lemma_u16_le_bytes_injective(h.id, g.id);
    assert(bh.subrange(2, 4) =~= u16_le_bytes(h.packet_type.spec_code()));
    assert(bg.subrange(2, 4) =~= u16_le_bytes(g.packet_type.spec_code()));
    lemma_u16_le_bytes_injective(h.packet_type.spec_code(), g.packet_type.spec_code());
    assert(bh[4] == h.node_id && bg[4] == g.node_id);
    assert(bh.subrange(5, 7) =~= u16_le_bytes(h.length));
    assert(bg.subrange(5, 7) =~= u16_le_bytes(g.length));
    lemma_u16_le_bytes_injective(h.length, g.length);
}

/// The layout of an encoded frame: fourteen bytes; the first four, read with
/// the first as least significant, give the identifier; then the flags, the
/// eight data bytes in order, and the checksum.
pub proof fn law_can_packet_layout(p: CanPacket)
    ensures
        can_packet_bytes(p).len() == 14,
        can_packet_bytes(p)[0] + 256 * can_packet_bytes(p)[1] + 65536 * can_packet_bytes(p)[2]
            + 16777216 * can_packet_bytes(p)[3] == p.id,
        can_packet_bytes(p)[4] == p.flags,
        forall|i: int| 0 <= i < 8 ==> #[trigger] can_packet_bytes(p)[5 + i] == p.data[i],
        can_packet_bytes(p)[13] == p.crc,
{
    let b = can_packet_bytes(p);
    let id = p.id;
    let b0 = b[0];
    let b1 = b[1];
    let b2 = b[2];
    let b3 = b[3];
    assert(b0 == (id & 0xFFu32) as u8 && b1 == ((id >> 8u32) & 0xFFu32) as u8 && b2 == ((id
        >> 16u32) & 0xFFu32) as u8 && b3 == ((id >> 24u32) & 0xFFu32) as u8);
    assert(b0 + 256 * b1 + 65536 * b2 + 16777216 * b3 == id) by (bit_vector)
        requires
            b0 == (id & 0xFFu32) as u8,
            b1 == ((id >> 8u32) & 0xFFu32) as u8,
            b2 == ((id >> 16u32) & 0xFFu32) as u8,
            b3 == ((id >> 24u32) & 0xFFu32) as u8,
    ;
}

/// The layout of an encoded extended-frame header: seven bytes; the id, then
/// the kind (0 for a status message, 1 for an unknown message), the node id,
/// and the payload length, each number with its least significant byte first.
pub proof fn law_xl_header_layout(h: XLCanPacketHeader)
    ensures
        xl_header_bytes(h).len() == 7,
        xl_header_bytes(h)[0] + 256 * xl_header_bytes(h)[1] == h.id,
        xl_header_bytes(h)[2] == (if h.packet_type == XLCanPacketType::StatusMessage {
            0u8
        } else {
            1u8
        }),
        xl_header_bytes(h)[3] == 0,
        xl_header_bytes(h)[4] == h.node_id,
        xl_header_bytes(h)[5] + 256 * xl_header_bytes(h)[6] == h.length,
{
    let b = xl_header_bytes(h);
    let id = h.id;
    let len = h.length;
    let c = h.packet_type.spec_code();
    let (b0, b1, b2, b3, b5, b6) = (b[0], b[1], b[2], b[3], b[5], b[6]);
    assert(b0 == (id & 0xFFu16) as u8 && b1 == ((id >> 8u16) & 0xFFu16) as u8);
    assert(b5 == (len & 0xFFu16) as u8 && b6 == ((len >> 8u16) & 0xFFu16) as u8);
    assert(b2 == (c & 0xFFu16) as u8 && b3 == ((c >> 8u16) & 0xFFu16) as u8);
    assert(b0 + 256 * b1 == id) by (bit_vector)
        requires
            b0 == (id & 0xFFu16) as u8,
            b1 == ((id >> 8u16) & 0xFFu16) as u8,
    ;
    assert(b5 + 256 * b6 == len) by (bit_vector)
        requires
            b5 == (len & 0xFFu16) as u8,
            b6 == ((len >> 8u16) & 0xFFu16) as u8,
    ;
    assert(c <= 1 ==> (c & 0xFFu16) as u8 == c && ((c >> 8u16) & 0xFFu16) as u8 == 0u8)
        by (bit_vector);
}

/// An encoded extended frame is its seven header bytes followed by its
/// payload bytes in order.
pub proof fn law_xl_packet_layout(x: XLCanPacket)
    ensures
        xl_packet_bytes(x).len() == 7 + x.data@.len(),
        xl_packet_bytes(x).subrange(0, 7) == xl_header_bytes(x.header),
        forall|i: int| 0 <= i < x.data@.len() ==> #[trigger] xl_packet_bytes(x)[7 + i] == x.data@[i],
{
    assert(xl_packet_bytes(x).subrange(0, 7) =~= xl_header_bytes(x.header));
}

} // verus!
