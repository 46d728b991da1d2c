//! Packet formats and message bookkeeping for a CAN / CANopen bus monitor.
//!
//! * [`packet`]: the raw CAN frame and the extended ("XL") frame with its header.
//! * [`open`]: the CANopen view of a raw frame (node id, SDO fields, frame type).
//! * [`wire`]: the byte layout in which frames travel over UDP.
//! * [`time`]: monotonic timestamps in nanoseconds.
//! * [`events`]: frames stamped with the time at which they were seen.
//! * [`widgets`]: the per-message statistics that the monitor displays.
//! * [`frames`]: the frames that the bus tools send.
//! * [`panes`]: what each pane of the monitor window offers.

pub mod events;
pub mod frames;
pub mod open;
pub mod packet;
pub mod panes;
pub mod time;
pub mod widgets;
pub mod wire;

pub use events::{CanPacketIn, CanPacketOut};
pub use open::{CanOpenPacket, CanOpenType};
pub use packet::{CanPacket, XLCanPacket, XLCanPacketHeader, XLCanPacketType};
pub use time::Timestamp;
