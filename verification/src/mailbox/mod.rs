//! The mailbox of a SubDevice: its header, the protocols that it carries, and the waits for it.

pub mod eoe;
pub mod header;
pub mod header_laws;
pub mod header_layout_laws;
pub mod mailbox_type;
pub mod priority;
pub mod wait;
pub mod wait_laws;
pub mod wait_trace_laws;
