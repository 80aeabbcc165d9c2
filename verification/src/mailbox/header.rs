//! The mailbox header: six bytes in front of every mailbox message.
//!
//! ```text
//! bytes 0, 1:  length of the payload
//! bytes 2, 3:  address, zero
//! byte 4:      reserved(6)  priority(2)
//! byte 5:      type(4)      counter(3)   reserved(1)
//! ```

use vstd::prelude::*;

use super::mailbox_type::MailboxType;
use super::priority::Priority;
use crate::wire::{
    bytes_of_word, overwritten, packs, read_word, split_word, try_write_front, word_of, write_front,
    WireError,
};

verus! {

/// Mailbox header.
#[derive(Clone, Copy, Debug, PartialEq, Eq, Structural)]
pub struct MailboxHeader {
    /// Mailbox data payload length.
    pub length: u16,
    /// How urgent the message is.
    pub priority: Priority,
    /// The protocol that the message belongs to.
    pub mailbox_type: MailboxType,
    /// Mailbox counter from 1 to 7 inclusive. Wraps around to 1 when count exceeds 7. 0 is
    /// reserved. Only the low three bits go on the wire.
    pub counter: u8,
}

impl MailboxHeader {
    /// The bytes that this header is written as. Of the counter only the low three bits are.
    pub open spec fn wire_bytes(self) -> Seq<u8> {
        bytes_of_word(self.length) + seq![
            0u8,
            0u8,
            (64 * self.priority.code()) as u8,
            (self.mailbox_type.code() + 16 * (self.counter % 8)) as u8,
        ]
    }

    /// What the front of `bytes` says. The address and the reserved bits are not looked at.
    pub open spec fn unpacked(bytes: Seq<u8>) -> Result<MailboxHeader, WireError> {
        if bytes.len() < 6 {
            Err(WireError::ReadBufferTooShort)
        } else {
            match MailboxType::named((bytes[5] % 16) as u8) {
                Ok(mailbox_type) => Ok(
                    MailboxHeader {
                        length: word_of(bytes[0], bytes[1]),
                        priority: Priority::named((bytes[4] / 64) as u8),
                        mailbox_type,
                        counter: (bytes[5] / 16 % 8) as u8,
                    },
                ),
                Err(error) => Err(error),
            }
        }
    }

    /// Reads a header from the front of `buf`. A reserved mailbox type is an error.
    pub fn unpack_from_slice(buf: &[u8]) -> (header: Result<MailboxHeader, WireError>)
        ensures
            header == MailboxHeader::unpacked(buf@),
    {
        if buf.len() < 6 {
            return Err(WireError::ReadBufferTooShort);
        }
        match MailboxType::try_from(buf[5] % 16) {
            Ok(mailbox_type) => Ok(
                MailboxHeader {
                    length: read_word(buf[0], buf[1]),
                    priority: Priority::from(buf[4] / 64),
                    mailbox_type,
                    counter: buf[5] / 16 % 8,
                },
            ),
            Err(error) => Err(error),
        }
    }

    /// How many bytes a header takes up on the wire.
    pub fn packed_len(&self) -> (len: usize)
        ensures
            len == self.wire_bytes().len(),
    {
        6
    }

    /// The bytes that this header is written as.
    pub fn pack(&self) -> (packed: [u8; 6])
        ensures
            packed@ == self.wire_bytes(),
    {
        let (low, high) = split_word(self.length);
        let packed: [u8; 6] = [
            low,
            high,
            0,
            0,
            64 * u8::from(self.priority),
            u8::from(self.mailbox_type) + 16 * (self.counter % 8),
        ];
        assert(bytes_of_word(self.length) == seq![low, high]);
        assert(packed@ =~= self.wire_bytes());
        packed
    }

    /// Writes this header into the front of `buf` and hands that front back. The buffer must be
    /// long enough.
    pub fn pack_to_slice_unchecked<'buf>(&self, buf: &'buf mut [u8]) -> (written: &'buf [u8])
        requires
            self.wire_bytes().len() <= old(buf)@.len(),
        ensures
            written@ == self.wire_bytes(),
            final(buf)@ == overwritten(old(buf)@, self.wire_bytes()),
    {
        write_front(buf, &self.pack())
    }

    /// Writes this header into the front of `buf` and hands that front back, if it fits.
    pub fn pack_to_slice<'buf>(&self, buf: &'buf mut [u8]) -> (written: Result<
        &'buf [u8],
        WireError,
    >)
        ensures
            packs(self.wire_bytes(), old(buf)@, final(buf)@, written),
    {
        try_write_front(buf, &self.pack())
    }
}

} // verus!
