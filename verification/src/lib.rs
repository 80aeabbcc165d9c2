//! Mailbox traffic of an EtherCAT MainDevice: the mailbox header, Ethernet over EtherCAT (EoE)
//! and the waits that surround every exchange with a SubDevice.
//!
//! * [`mailbox`] holds the mailbox header and the two waits: for a SubDevice's mailboxes to be
//!   ready, and for its response.
//! * [`mailbox::eoe`] holds the EoE header, with its overloaded second word, and the IP parameters
//!   of a SubDevice.
//! * [`wire`] holds what the wire formats share.
//!
//! Every wire type comes with two spec functions: `wire_bytes`, the bytes that a value is written
//! as, and `unpacked`, what bytes are read as. The contracts of the functions that read and write
//! speak of these two, and the modules named `*_laws` state what holds between them.
//!
//! The crate does no I/O. The waits are state machines: they say what the bus has to do, and are
//! told how it went.

pub mod mailbox;
pub mod wire;

pub use mailbox::eoe::address::Ipv4Addr;
pub use mailbox::eoe::frame_type::FrameType;
pub use mailbox::eoe::header::{EoeHeader, Fragment, SecondWord};
pub use mailbox::eoe::ip_param::IpParam;
pub use mailbox::eoe::result::EoeResult;
pub use mailbox::header::MailboxHeader;
pub use mailbox::mailbox_type::MailboxType;
pub use mailbox::priority::Priority;
pub use mailbox::wait::{
    Action, Error, Event, Mailbox, MailboxConfig, MailboxError, MailboxesWait, ResponseWait, Step,
    TimeLimit, CLEAR_ATTEMPTS,
};
pub use wire::WireError;
