//! The button that sends an SDO request to node `0x40`.
use vstd::prelude::*;
use crate::open::CanOpenPacket;
use crate::packet::CanPacket;

verus! {

/// A button that, when pressed, sends the frame of [`SDORequestButton::request_packet`].
#[derive(Default, Debug)]
pub struct SDORequestButton {}

impl SDORequestButton {
    /// The frame the button sends: identifier `(0x580 ^ 0x75) | 0x40`, that is
    /// `0x5F5`, data length one, command bits clear, object index 100 (written
    /// low byte first), sub-index 0, and data byte 0 set to one.
    pub fn request_packet(&self) -> (p: CanPacket)
        ensures
            p.id == 0x5F5,
            p.flags == 1,
            p.data@ == seq![1u8, 100u8, 0u8, 0u8, 0u8, 0u8, 0u8, 0u8],
            p.crc == 0,
    {
        let mut packet = CanPacket::new(0x580, 0, [0;8]);
        packet.set_node_id(0x40);
        packet.set_cmd(0x10);
        packet.set_index(100);
        packet.set_subindex(0);
        packet.set_data_length(1);
        packet.data[0] = 0x01;
        assert((0x580u32 ^ 0x75u32) | (0x40u8 as u32) == 0x5F5u32) by (bit_vector);
        assert((0u8 & 0x1Fu8) | (0x10u8 & 0xE0u8) == 0u8) by (bit_vector);
        assert((100u16 >> 0u16) as u8 == 100u8 && (100u16 >> 8u16) as u8 == 0u8) by (bit_vector);
        assert((0u8 & 0xF0u8) | (1u8 & 0x0Fu8) == 1u8) by (bit_vector);
        assert(packet.data@ =~= seq![1u8, 100u8, 0u8, 0u8, 0u8, 0u8, 0u8, 0u8]);
        packet
    }
}

} // verus!
