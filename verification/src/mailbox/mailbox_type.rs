//! Which protocol a mailbox message belongs to.

use vstd::prelude::*;
use vstd::std_specs::convert::{FromSpecImpl, TryFromSpecImpl};

use crate::wire::{overwritten, packs, try_write_front, write_front, WireError};

verus! {

/// The protocol that a mailbox message belongs to.
///
/// Values 6 to 14 are reserved; reading one is an error.
#[derive(Clone, Copy, Debug, PartialEq, Eq, Structural)]
pub enum MailboxType {
    /// error (ERR)
    Error,
    /// ADS over EtherCAT (AoE)
    Aoe,
    /// Ethernet over EtherCAT (EoE)
    Eoe,
    /// CAN application protocol over EtherCAT (CoE)
    Coe,
    /// File Access over EtherCAT (FoE)
    Foe,
    /// Servo profile over EtherCAT (SoE)
    Soe,
    /// Vendor specific
    VendorSpecific,
}

impl MailboxType {
    /// The value that stands for this mailbox type on the wire.
    pub open spec fn code(self) -> u8 {
        match self {
            MailboxType::Error => 0,
            MailboxType::Aoe => 1,
            MailboxType::Eoe => 2,
            MailboxType::Coe => 3,
            MailboxType::Foe => 4,
            MailboxType::Soe => 5,
            MailboxType::VendorSpecific => 15,
        }
    }

    /// The mailbox type that a value stands for, if it stands for one.
    pub open spec fn named(code: u8) -> Result<MailboxType, WireError> {
        match code {
            0 => Ok(MailboxType::Error),
            1 => Ok(MailboxType::Aoe),
            2 => Ok(MailboxType::Eoe),
            3 => Ok(MailboxType::Coe),
            4 => Ok(MailboxType::Foe),
            5 => Ok(MailboxType::Soe),
            15 => Ok(MailboxType::VendorSpecific),
            _ => Err(WireError::InvalidValue),
        }
    }

    /// The bytes that this mailbox type is written as.
    pub open spec fn wire_bytes(self) -> Seq<u8> {
        seq![self.code()]
    }

    /// What the front of `bytes` says.
    pub open spec fn unpacked(bytes: Seq<u8>) -> Result<MailboxType, WireError> {
        if bytes.len() < 1 {
            Err(WireError::ReadBufferTooShort)
        } else {
            MailboxType::named(bytes[0])
        }
    }

    /// Reads a mailbox type from the front of `buf`.
    pub fn unpack_from_slice(buf: &[u8]) -> (mailbox_type: Result<MailboxType, WireError>)
        ensures
            mailbox_type == MailboxType::unpacked(buf@),
    {
        if buf.len() < 1 {
            return Err(WireError::ReadBufferTooShort);
        }
        MailboxType::try_from(buf[0])
    }

    /// How many bytes this mailbox type takes up on the wire.
    pub fn packed_len(&self) -> (len: usize)
        ensures
            len == self.wire_bytes().len(),
    {
        1
    }

    /// The bytes that this mailbox type is written as.
    pub fn pack(&self) -> (packed: [u8; 1])
        ensures
            packed@ == self.wire_bytes(),
    {
        let packed: [u8; 1] = [u8::from(*self)];
        assert(packed@ =~= self.wire_bytes());
        packed
    }

    /// Writes this mailbox type into the front of `buf` and hands that front back. The buffer must
    /// be long enough.
    pub fn pack_to_slice_unchecked<'buf>(&self, buf: &'buf mut [u8]) -> (written: &'buf [u8])
        requires
            self.wire_bytes().len() <= old(buf)@.len(),
        ensures
            written@ == self.wire_bytes(),
            final(buf)@ == overwritten(old(buf)@, self.wire_bytes()),
    {
        write_front(buf, &self.pack())
    }

    /// Writes this mailbox type into the front of `buf` and hands that front back, if it fits.
    pub fn pack_to_slice<'buf>(&self, buf: &'buf mut [u8]) -> (written: Result<
        &'buf [u8],
        WireError,
    >)
        ensures
            packs(self.wire_bytes(), old(buf)@, final(buf)@, written),
    {
        try_write_front(buf, &self.pack())
    }
}

impl From<MailboxType> for u8 {
    fn from(mailbox_type: MailboxType) -> (code: u8) {
        match mailbox_type {
            MailboxType::Error => 0,
            MailboxType::Aoe => 1,
            MailboxType::Eoe => 2,
            MailboxType::Coe => 3,
            MailboxType::Foe => 4,
            MailboxType::Soe => 5,
            MailboxType::VendorSpecific => 15,
        }
    }
}

impl FromSpecImpl<MailboxType> for u8 {
    open spec fn obeys_from_spec() -> bool {
        true
    }

    open spec fn from_spec(mailbox_type: MailboxType) -> u8 {
        mailbox_type.code()
    }
}

impl TryFrom<u8> for MailboxType {
    type Error = WireError;

    fn try_from(code: u8) -> (mailbox_type: Result<MailboxType, WireError>) {
        match code {
            0 => Ok(MailboxType::Error),
            1 => Ok(MailboxType::Aoe),
            2 => Ok(MailboxType::Eoe),
            3 => Ok(MailboxType::Coe),
            4 => Ok(MailboxType::Foe),
            5 => Ok(MailboxType::Soe),
            15 => Ok(MailboxType::VendorSpecific),
            _ => Err(WireError::InvalidValue),
        }
    }
}

impl TryFromSpecImpl<u8> for MailboxType {
    open spec fn obeys_try_from_spec() -> bool {
        true
    }

    open spec fn try_from_spec(code: u8) -> Result<MailboxType, WireError> {
        MailboxType::named(code)
    }
}

} // verus!
