use vstd::prelude::*;
use crate::packet::CanPacket;
use crate::time::Timestamp;

verus! {

/// A frame received from the bus, with the time at which it arrived.
#[derive(Debug, Clone, Copy)]
pub struct CanPacketIn(pub CanPacket, pub Timestamp);

/// A frame sent to the bus, with the time at which it left.
#[derive(Debug, Clone, Copy)]
pub struct CanPacketOut(pub CanPacket, pub Timestamp);

} // verus!
