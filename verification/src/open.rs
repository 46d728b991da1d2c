use vstd::prelude::*;
use vstd::array::spec_array_update;
use crate::packet::CanPacket;

verus! {

/// What a frame is in CANopen terms, as told by its identifier.
#[derive(Debug, Clone, Copy, PartialEq, Eq, Structural)]
pub enum CanOpenType {
    Heartbeat,
    SdoResponse,
    SdoRequest,
    TransmitPdo,
    ReceivePdo,
    Unknown,
}

/// The function code of an identifier: the identifier without its seven node-id bits.
pub open spec fn function_code(id: u32) -> u32 {
    id & !0x7Fu32
}

/// The CANopen type that [`CanOpenPacket::get_type`] reports for an identifier.
///
/// A function code of `0x700` is a heartbeat; `0x580` and `0x600..0x6E0` are
/// both reported as SDO requests; every other code is unknown.
pub open spec fn type_of_id(id: u32) -> CanOpenType {
    let code = function_code(id);
    if code == 0x700 {
        CanOpenType::Heartbeat
    } else if 0x580 <= code && code < 0x600 {
        CanOpenType::SdoRequest
    } else if 0x600 <= code && code < 0x6E0 {
        CanOpenType::SdoRequest
    } else {
        CanOpenType::Unknown
    }
}

/// `p` with data byte `k` replaced by `b`, everything else kept.
pub open spec fn with_byte(p: CanPacket, k: int, b: u8) -> CanPacket {
    CanPacket { id: p.id, flags: p.flags, data: spec_array_update(p.data, k, b), crc: p.crc }
}

/// The node id that a frame carries: the low seven bits of its identifier.
pub open spec fn node_id_of(p: CanPacket) -> u8 {
    (p.id & 0x7Fu32) as u8
}

/// The SDO object index as read back: data byte 1 is taken as the high byte
/// and data byte 2 as the low byte.
pub open spec fn sdo_index_of(p: CanPacket) -> u16 {
    ((p.data[1] as u16) << 8u16) | (p.data[2] as u16)
}

/// The SDO sub-index: data byte 3.
pub open spec fn sdo_subindex_of(p: CanPacket) -> u8 {
    p.data[3]
}

/// The frame after `set_node_id(n)`: the identifier becomes `(id ^ 0x75) | n`.
pub open spec fn with_node_id(p: CanPacket, n: u8) -> CanPacket {
    CanPacket { id: (p.id ^ 0x75u32) | (n as u32), flags: p.flags, data: p.data, crc: p.crc }
}

/// The frame after `set_index(i)`: byte 1 holds the low byte of `i`, byte 2 the high byte.
pub open spec fn with_index(p: CanPacket, i: u16) -> CanPacket {
    with_byte(with_byte(p, 1, (i >> 0u16) as u8), 2, (i >> 8u16) as u8)
}

/// The frame after `set_subindex(s)`: byte 3 holds `s`.
pub open spec fn with_subindex(p: CanPacket, s: u8) -> CanPacket {
    with_byte(p, 3, s)
}

/// The command byte after `set_cmd(c)`: the top three bits come from `c`,
/// the low five bits are kept.
pub open spec fn cmd_byte(b: u8, c: u8) -> u8 {
    (b & 0x1Fu8) | (c & 0xE0u8)
}

/// The frame after `set_cmd(c)`.
pub open spec fn with_cmd(p: CanPacket, c: u8) -> CanPacket {
    with_byte(p, 0, cmd_byte(p.data[0], c))
}

/// The flag byte after `set_data_length(l)`: the low four bits hold `l`, the
/// high four bits are kept.
pub open spec fn length_flags(f: u8, l: u8) -> u8 {
    (f & 0xF0u8) | (l & 0x0Fu8)
}

/// The frame after `set_data_length(l)`.
pub open spec fn with_data_length(p: CanPacket, l: u8) -> CanPacket {
    CanPacket { id: p.id, flags: length_flags(p.flags, l), data: p.data, crc: p.crc }
}

/// The command byte after `set_sdo_length(l)`: bits 2 and 3 are replaced by
/// `4 - l` shifted left by two, bits 0 and 1 are set, the rest is kept.
pub open spec fn sdo_length_byte(b: u8, l: u8) -> u8 {
    ((b & 0xF3u8) | ((((4 - l) as u8) & 0x0Fu8) << 2u8)) | 0x03u8
}

/// The frame after `set_sdo_length(l)`: data length eight, then the size bits
/// of the command byte.
pub open spec fn with_sdo_length(p: CanPacket, l: u8) -> CanPacket {
    let q = with_data_length(p, 8);
    with_byte(q, 0, sdo_length_byte(q.data[0], l))
}

/// Reading and writing the CANopen fields of a frame.
pub trait CanOpenPacket {
    fn get_node_id(&self) -> u8;

    fn set_node_id(&mut self, node_id: u8);

    fn set_cmd(&mut self, cmd: u8);

    fn set_index(&mut self, index: u16);

    fn set_subindex(&mut self, subindex: u8);

    fn set_sdo_length(&mut self, length: u8)
        requires
            length <= 4,
    ;

    fn set_data_length(&mut self, length: u8);

    fn get_sdo_index(&self) -> u16;

    fn get_sdo_subindex(&self) -> u8;

    fn get_type(&self) -> CanOpenType;
}

impl CanOpenPacket for CanPacket {
    fn get_node_id(&self) -> (n: u8)
        ensures
            n == node_id_of(*self),
    {
        (self.id & 0x7F) as u8
    }

    fn set_node_id(&mut self, node_id: u8)
        ensures
            *final(self) == with_node_id(*old(self), node_id),
    {
        self.id = self.id ^ 0x75 | (node_id as u32)
    }

    fn set_index(&mut self, index: u16)
        ensures
            *final(self) == with_index(*old(self), index),
    {
        self.data[1] = (index >> 0) as u8;
        self.data[2] = (index >> 8) as u8;
    }

    fn set_subindex(&mut self, subindex: u8)
        ensures
            *final(self) == with_subindex(*old(self), subindex),
    {
        self.data[3] = subindex;
    }

    fn set_cmd(&mut self, cmd: u8)
        ensures
            *final(self) == with_cmd(*old(self), cmd),
    {
        self.data[0] = (self.data[0] & 0b00011111) | cmd & 0b11100000;
    }

    fn set_sdo_length(&mut self, length: u8)
        ensures
            *final(self) == with_sdo_length(*old(self), length),
    {
        self.set_data_length(8);
        self.data[0] = (self.data[0] & 0xF3) | (((4 - length) & 0x0F) << 2) | 0b11;
    }

    fn set_data_length(&mut self, length: u8)
        ensures
            *final(self) == with_data_length(*old(self), length),
    {
        self.flags = (self.flags & 0xF0) | (length & 0x0F);
    }

    fn get_type(&self) -> (t: CanOpenType)
        ensures
            t == type_of_id(self.id),
    {
        let id = self.id & !0x7F;
        if id == 0x700 {
            CanOpenType::Heartbeat
        } else if id >= 0x580 && id < 0x600 {
            CanOpenType::SdoRequest
        } else if id >= 0x600 && id < 0x6E0 {
            CanOpenType::SdoRequest
        } else {
            CanOpenType::Unknown
        }
    }

    fn get_sdo_index(&self) -> (i: u16)
        ensures
            i == sdo_index_of(*self),
    {
        (self.data[1] as u16) << 8 | (self.data[2] as u16)
    }

    fn get_sdo_subindex(&self) -> (s: u8)
        ensures
            s == sdo_subindex_of(*self),
    {
        self.data[3]
    }
}

/// Reading the sub-index back gives what `set_subindex` wrote.
pub proof fn law_subindex_readback(p: CanPacket, s: u8)
    ensures
        sdo_subindex_of(with_subindex(p, s)) == s,
{
}

/// `set_index` writes the index low byte first, `get_sdo_index` reads the high
/// byte first: what is read back is the written index with its bytes swapped.
pub proof fn law_index_readback_swaps_bytes(p: CanPacket, i: u16)
    ensures
        sdo_index_of(with_index(p, i)) == ((i & 0xFFu16) << 8u16) | (i >> 8u16),
{
    let q = with_index(p, i);
    assert(q.data[1] == (i >> 0u16) as u8);
    assert(q.data[2] == (i >> 8u16) as u8);
    let lo = (i >> 0u16) as u8;
    let hi = (i >> 8u16) as u8;
    assert(((lo as u16) << 8u16) | (hi as u16) == ((i & 0xFFu16) << 8u16) | (i >> 8u16))
        by (bit_vector)
        requires
            lo == (i >> 0u16) as u8,
            hi == (i >> 8u16) as u8,
    ;
}

/// The index reads back unchanged exactly when its two bytes are equal.
pub proof fn law_index_readback_exact(p: CanPacket, i: u16)
    ensures
        sdo_index_of(with_index(p, i)) == i <==> (i & 0xFFu16) == (i >> 8u16),
{
    law_index_readback_swaps_bytes(p, i);
    assert((((i & 0xFFu16) << 8u16) | (i >> 8u16)) == i <==> (i & 0xFFu16) == (i >> 8u16))
        by (bit_vector);
}

/// The sub-index and the index live in different bytes: writing one leaves
/// the other as it was, and the two writes commute.
pub proof fn law_index_subindex_independent(p: CanPacket, i: u16, s: u8)
    ensures
        sdo_subindex_of(with_index(p, i)) == sdo_subindex_of(p),
        sdo_index_of(with_subindex(p, s)) == sdo_index_of(p),
        with_index(with_subindex(p, s), i) == with_subindex(with_index(p, i), s),
{
    assert(with_index(with_subindex(p, s), i).data =~= with_subindex(with_index(p, i), s).data);
}

/// The command bits: after `set_cmd(c)` the top three bits of byte 0 are those
/// of `c`, the low five are those before, and a later `set_cmd` overrides an
/// earlier one.
pub proof fn law_cmd_last_write_wins(p: CanPacket, a: u8, b: u8)
    ensures
        with_cmd(p, a).data[0] & 0xE0u8 == a & 0xE0u8,
        with_cmd(p, a).data[0] & 0x1Fu8 == p.data[0] & 0x1Fu8,
        with_cmd(with_cmd(p, a), b) == with_cmd(p, b),
{
    let d = p.data[0];
    assert(cmd_byte(d, a) & 0xE0u8 == a & 0xE0u8) by (bit_vector);
    assert(cmd_byte(d, a) & 0x1Fu8 == d & 0x1Fu8) by (bit_vector);
    assert(cmd_byte(cmd_byte(d, a), b) == cmd_byte(d, b)) by (bit_vector);
    assert(with_cmd(with_cmd(p, a), b).data =~= with_cmd(p, b).data);
}

/// The command bits and the SDO size bits of byte 0 do not overlap: the two
/// writes commute, and neither touches the index or the sub-index.
pub proof fn law_cmd_sdo_length_commute(p: CanPacket, c: u8, l: u8)
    requires
        l <= 4,
    ensures
        with_cmd(with_sdo_length(p, l), c) == with_sdo_length(with_cmd(p, c), l),
        sdo_index_of(with_cmd(p, c)) == sdo_index_of(p),
        sdo_subindex_of(with_cmd(p, c)) == sdo_subindex_of(p),
        sdo_index_of(with_sdo_length(p, l)) == sdo_index_of(p),
        sdo_subindex_of(with_sdo_length(p, l)) == sdo_subindex_of(p),
{
    let d = p.data[0];
    assert(cmd_byte(sdo_length_byte(d, l), c) == sdo_length_byte(cmd_byte(d, c), l))
        by (bit_vector)
        requires
            l <= 4,
    ;
    assert(with_cmd(with_sdo_length(p, l), c).data =~= with_sdo_length(with_cmd(p, c), l).data);
}

/// After `set_sdo_length(l)` the data length is eight, bits 0 and 1 of the
/// command byte are set, the command bits are kept, and for `1 <= l <= 4`
/// bits 2 and 3 hold `4 - l`.
pub proof fn law_sdo_length_bits(p: CanPacket, l: u8)
    requires
        l <= 4,
    ensures
        with_sdo_length(p, l).flags & 0x0Fu8 == 8,
        with_sdo_length(p, l).data[0] & 0x03u8 == 3,
        with_sdo_length(p, l).data[0] & 0xE0u8 == p.data[0] & 0xE0u8,
        1 <= l ==> (with_sdo_length(p, l).data[0] >> 2u8) & 0x03u8 == 4 - l,
{
    let d = p.data[0];
    let f = p.flags;
    assert(length_flags(f, 8) & 0x0Fu8 == 8) by (bit_vector);
    assert(sdo_length_byte(d, l) & 0x03u8 == 3) by (bit_vector);
    assert(l <= 4 ==> sdo_length_byte(d, l) & 0xE0u8 == d & 0xE0u8) by (bit_vector);
    assert(1 <= l <= 4 ==> (sdo_length_byte(d, l) >> 2u8) & 0x03u8 == 4 - l) by (bit_vector);
}

/// The node id written is always present in the node id read back, and it is
/// read back unchanged when the old node id was `0x75` and the new one fits
/// in seven bits.
pub proof fn law_node_id_readback(p: CanPacket, n: u8)
    ensures
        node_id_of(with_node_id(p, n)) & n == n & 0x7Fu8,
        node_id_of(p) == 0x75 && n < 0x80 ==> node_id_of(with_node_id(p, n)) == n,
{
    let id = p.id;
    assert(((((id ^ 0x75u32) | (n as u32)) & 0x7Fu32) as u8) & n == n & 0x7Fu8) by (bit_vector);
    assert(((id & 0x7Fu32) as u8 == 0x75u8 && n < 0x80u8) ==> (((id ^ 0x75u32) | (n as u32))
        & 0x7Fu32) as u8 == n) by (bit_vector);
}

/// The reported type depends only on the function code: a node id that fits
/// in seven bits never changes it.
pub proof fn law_type_ignores_node_id(p: CanPacket, n: u8)
    requires
        n < 0x80,
    ensures
        type_of_id(p.id) == type_of_id(function_code(p.id)),
        type_of_id(with_node_id(p, n).id) == type_of_id(p.id),
{
    let id = p.id;
    assert(function_code(function_code(id)) == function_code(id)) by (bit_vector);
    assert(n < 0x80u8 ==> function_code((id ^ 0x75u32) | (n as u32)) == function_code(id))
        by (bit_vector);
}

/// The reported type is decided by the function code `id & !0x7F` alone:
/// heartbeat exactly for code `0x700`, SDO request exactly for codes from
/// `0x580` up to (not including) `0x6E0`, unknown for every other code.
pub proof fn law_type_by_function_code(id: u32)
    ensures
        type_of_id(id) == CanOpenType::Heartbeat <==> (id & !0x7Fu32) == 0x700,
        type_of_id(id) == CanOpenType::SdoRequest <==> 0x580 <= (id & !0x7Fu32) && (id
            & !0x7Fu32) < 0x6E0,
        type_of_id(id) == CanOpenType::Unknown <==> (id & !0x7Fu32) != 0x700 && !(0x580 <= (id
            & !0x7Fu32) && (id & !0x7Fu32) < 0x6E0),
        type_of_id(id) != CanOpenType::SdoResponse,
        type_of_id(id) != CanOpenType::TransmitPdo,
        type_of_id(id) != CanOpenType::ReceivePdo,
{
}

/// The node id is the identifier modulo 128.
pub proof fn law_node_id_is_identifier_mod_128(p: CanPacket)
    ensures
        node_id_of(p) == p.id % 128,
{
    let id = p.id;
    assert(((id & 0x7Fu32) as u8) as u32 == id % 128) by (bit_vector);
}

/// `set_data_length(l)` puts `l` modulo 16 into the low four bits of the
/// flags and keeps the high four bits.
pub proof fn law_data_length_nibble(p: CanPacket, l: u8)
    ensures
        with_data_length(p, l).flags % 16 == l % 16,
        with_data_length(p, l).flags / 16 == p.flags / 16,
        with_data_length(p, l).data == p.data,
        with_data_length(p, l).id == p.id,
{
    let f = p.flags;
    assert(((f & 0xF0u8) | (l & 0x0Fu8)) % 16 == l % 16 && ((f & 0xF0u8) | (l & 0x0Fu8)) / 16 == f
        / 16) by (bit_vector);
}

/// Where the SDO fields sit: `set_index(i)` puts `i % 256` in data byte 1 and
/// `i / 256` in data byte 2, `set_subindex(s)` puts `s` in data byte 3, each
/// leaving every other byte and the identifier as they were; the index read
/// back is byte 1 times 256 plus byte 2, the sub-index read back is byte 3.
pub proof fn law_sdo_field_positions(p: CanPacket, i: u16, s: u8)
    ensures
        with_index(p, i).data[1] == i % 256,
        with_index(p, i).data[2] == i / 256,
        forall|j: int| 0 <= j < 8 && j != 1 && j != 2 ==> #[trigger] with_index(p, i).data[j] == p.data[j],
        with_index(p, i).id == p.id && with_index(p, i).flags == p.flags,
        with_subindex(p, s).data[3] == s,
        forall|j: int| 0 <= j < 8 && j != 3 ==> #[trigger] with_subindex(p, s).data[j] == p.data[j],
        sdo_index_of(p) == p.data[1] * 256 + p.data[2],
        sdo_subindex_of(p) == p.data[3],
{
    let lo = (i >> 0u16) as u8;
    let hi = (i >> 8u16) as u8;
    assert(lo == i % 256 && hi == i / 256) by (bit_vector)
        requires
            lo == (i >> 0u16) as u8,
            hi == (i >> 8u16) as u8,
    ;
    let d1 = p.data[1];
    let d2 = p.data[2];
    assert(((d1 as u16) << 8u16) | (d2 as u16) == d1 * 256 + d2) by (bit_vector);
}

/// `set_node_id(n)` with `n < 128` keeps every identifier bit above the node
/// id, and sets the node id to the old one with bits 0x75 flipped, or-ed with `n`.
pub proof fn law_node_id_write(p: CanPacket, n: u8)
    requires
        n < 128,
    ensures
        with_node_id(p, n).id / 128 == p.id / 128,
        with_node_id(p, n).id % 128 == ((p.id % 128) ^ 0x75u32) | (n as u32),
        with_node_id(p, n).data == p.data && with_node_id(p, n).flags == p.flags,
{
    let id = p.id;
    assert(n < 128u8 ==> ((id ^ 0x75u32) | (n as u32)) / 128 == id / 128) by (bit_vector);
    assert(n < 128u8 ==> ((id ^ 0x75u32) | (n as u32)) % 128 == ((id % 128) ^ 0x75u32) | (
    n as u32)) by (bit_vector);
}

} // verus!
