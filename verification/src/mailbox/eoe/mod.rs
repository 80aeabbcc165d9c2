//! Ethernet over EtherCAT (EoE).
//!
//! An EoE message is the mailbox header, the EoE header and, behind it, a fragment of an Ethernet
//! frame or the payload of a request or a response.

pub mod address;
pub mod dns_name;
pub mod frame_type;
pub mod header;
pub mod header_laws;
pub mod header_layout_laws;
pub mod ip_param;
pub mod ip_param_laws;
pub mod ip_param_layout_laws;
pub mod result;
