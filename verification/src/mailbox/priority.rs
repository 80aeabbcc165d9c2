//! How urgent a mailbox message is.

use vstd::prelude::*;
use vstd::std_specs::convert::FromSpecImpl;

use crate::wire::{overwritten, packs, try_write_front, write_front, WireError};

verus! {

/// How urgent a mailbox message is.
#[derive(Clone, Copy, Debug, PartialEq, Eq, Structural)]
pub enum Priority {
    /// The lowest priority, and the default.
    Lowest,
    /// Low priority.
    Low,
    /// High priority.
    High,
    /// The highest priority.
    Highest,
}

impl Priority {
    /// The value that stands for this priority on the wire.
    pub open spec fn code(self) -> u8 {
        match self {
            Priority::Lowest => 0,
            Priority::Low => 1,
            Priority::High => 2,
            Priority::Highest => 3,
        }
    }

    /// The priority that a value stands for; one that is not defined reads as
    /// [`Priority::Lowest`].
    pub open spec fn named(code: u8) -> Priority {
        match code {
            0 => Priority::Lowest,
            1 => Priority::Low,
            2 => Priority::High,
            3 => Priority::Highest,
            _ => Priority::Lowest,
        }
    }

    /// The bytes that this priority is written as.
    pub open spec fn wire_bytes(self) -> Seq<u8> {
        seq![self.code()]
    }

    /// What the front of `bytes` says.
    pub open spec fn unpacked(bytes: Seq<u8>) -> Result<Priority, WireError> {
        if bytes.len() < 1 {
            Err(WireError::ReadBufferTooShort)
        } else {
            Ok(Priority::named(bytes[0]))
        }
    }

    /// Reads a priority from the front of `buf`.
    pub fn unpack_from_slice(buf: &[u8]) -> (priority: Result<Priority, WireError>)
        ensures
            priority == Priority::unpacked(buf@),
    {
        if buf.len() < 1 {
            return Err(WireError::ReadBufferTooShort);
        }
        Ok(Priority::from(buf[0]))
    }

    /// How many bytes this priority takes up on the wire.
    pub fn packed_len(&self) -> (len: usize)
        ensures
            len == self.wire_bytes().len(),
    {
        1
    }

    /// The bytes that this priority is written as.
    pub fn pack(&self) -> (packed: [u8; 1])
        ensures
            packed@ == self.wire_bytes(),
    {
        let packed: [u8; 1] = [u8::from(*self)];
        assert(packed@ =~= self.wire_bytes());
        packed
    }

    /// Writes this priority into the front of `buf` and hands that front back. The buffer must be
    /// long enough.
    pub fn pack_to_slice_unchecked<'buf>(&self, buf: &'buf mut [u8]) -> (written: &'buf [u8])
        requires
            self.wire_bytes().len() <= old(buf)@.len(),
        ensures
            written@ == self.wire_bytes(),
            final(buf)@ == overwritten(old(buf)@, self.wire_bytes()),
    {
        write_front(buf, &self.pack())
    }

    /// Writes this priority into the front of `buf` and hands that front back, if it fits.
    pub fn pack_to_slice<'buf>(&self, buf: &'buf mut [u8]) -> (written: Result<
        &'buf [u8],
        WireError,
    >)
        ensures
            packs(self.wire_bytes(), old(buf)@, final(buf)@, written),
    {
        try_write_front(buf, &self.pack())
    }
}

impl From<Priority> for u8 {
    fn from(priority: Priority) -> (code: u8) {
        match priority {
            Priority::Lowest => 0,
            Priority::Low => 1,
            Priority::High => 2,
            Priority::Highest => 3,
        }
    }
}

impl FromSpecImpl<Priority> for u8 {
    open spec fn obeys_from_spec() -> bool {
        true
    }

    open spec fn from_spec(priority: Priority) -> u8 {
        priority.code()
    }
}

impl From<u8> for Priority {
    fn from(code: u8) -> (priority: Priority) {
        match code {
            0 => Priority::Lowest,
            1 => Priority::Low,
            2 => Priority::High,
            3 => Priority::Highest,
            _ => Priority::Lowest,
        }
    }
}

impl FromSpecImpl<u8> for Priority {
    open spec fn obeys_from_spec() -> bool {
        true
    }

    open spec fn from_spec(code: u8) -> Priority {
        Priority::named(code)
    }
}

impl Default for Priority {
    fn default() -> (priority: Priority)
        ensures
            priority == Priority::Lowest,
    {
        Priority::Lowest
    }
}

} // verus!
