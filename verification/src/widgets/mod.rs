pub mod counting;
pub mod graph;
pub mod listing;
pub mod heartbeat;
pub mod table;

pub use graph::GraphWidget;
pub use heartbeat::CanMessageWidget;
pub use table::TableWidget;
pub mod sdo_request_button;

pub use sdo_request_button::SDORequestButton;
