//! Frames that the bus tools send.
use vstd::prelude::*;
use crate::open::CanOpenPacket;
use crate::packet::CanPacket;

verus! {

/// The frame the heartbeat tool broadcasts: an SDO request to node `0x40`
/// (identifier `0x640`) that writes one byte, the value 2, to object `0x1004`
/// sub-index 0. Command byte `0x2F`, index written low byte first, data length eight.
pub fn heartbeat_request() -> (p: CanPacket)
    ensures
        p.id == 0x640,
        p.flags == 8,
        p.data@ == seq![0x2Fu8, 0x04u8, 0x10u8, 0u8, 2u8, 0u8, 0u8, 0u8],
        p.crc == 0,
{
    let mut heartbeat = CanPacket::new(0x640, 0, [0;8]);
    heartbeat.set_cmd(0x20);
    heartbeat.set_index(0x1004);
    heartbeat.set_sdo_length(1);
    heartbeat.set_subindex(0);
    heartbeat.data[4] = 2;
    assert((0u8 & 0x1Fu8) | (0x20u8 & 0xE0u8) == 0x20u8) by (bit_vector);
    assert((0x1004u16 >> 0u16) as u8 == 0x04u8 && (0x1004u16 >> 8u16) as u8 == 0x10u8)
        by (bit_vector);
    assert((0u8 & 0xF0u8) | (8u8 & 0x0Fu8) == 8u8) by (bit_vector);
    assert(((0x20u8 & 0xF3u8) | ((((4 - 1) as u8) & 0x0Fu8) << 2u8)) | 0x03u8 == 0x2Fu8)
        by (bit_vector);
    assert(heartbeat.data@ =~= seq![0x2Fu8, 0x04u8, 0x10u8, 0u8, 2u8, 0u8, 0u8, 0u8]);
    heartbeat
}

} // verus!
