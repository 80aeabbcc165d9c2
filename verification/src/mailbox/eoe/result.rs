//! How an EoE request went.

use vstd::prelude::*;
use vstd::std_specs::convert::{FromSpecImpl, TryFromSpecImpl};

use crate::wire::{
    bytes_of_word, overwritten, packs, read_word, split_word, try_write_front, word_of, write_front,
    WireError,
};

verus! {

/// Result code of an EoE request, as carried by a response frame.
///
/// The code is a 16 bit value with no meaning between the listed points.
#[derive(Clone, Copy, Debug, PartialEq, Eq, Structural)]
pub enum EoeResult {
    /// The request succeeded.
    Success,
    /// The request failed for a reason the SubDevice did not name.
    UnspecifiedError,
    /// The SubDevice does not implement the frame type that was sent.
    UnsupportedFrameType,
    /// The SubDevice does not support setting IP parameters.
    NoIpSupport,
    /// The SubDevice does not support DHCP.
    NoDhcpSupport,
    /// The SubDevice does not support address filters.
    NoFilterSupport,
}

impl EoeResult {
    /// The value that stands for this result on the wire.
    pub open spec fn code(self) -> u16 {
        match self {
            EoeResult::Success => 0x0000,
            EoeResult::UnspecifiedError => 0x0001,
            EoeResult::UnsupportedFrameType => 0x0002,
            EoeResult::NoIpSupport => 0x0201,
            EoeResult::NoDhcpSupport => 0x0202,
            EoeResult::NoFilterSupport => 0x0401,
        }
    }

    /// The result that a value stands for, if it stands for one.
    pub open spec fn named(code: u16) -> Result<EoeResult, WireError> {
        match code {
            0x0000 => Ok(EoeResult::Success),
            0x0001 => Ok(EoeResult::UnspecifiedError),
            0x0002 => Ok(EoeResult::UnsupportedFrameType),
            0x0201 => Ok(EoeResult::NoIpSupport),
            0x0202 => Ok(EoeResult::NoDhcpSupport),
            0x0401 => Ok(EoeResult::NoFilterSupport),
            _ => Err(WireError::InvalidValue),
        }
    }

    /// The bytes that this result is written as.
    pub open spec fn wire_bytes(self) -> Seq<u8> {
        bytes_of_word(self.code())
    }

    /// What the front of `bytes` says.
    pub open spec fn unpacked(bytes: Seq<u8>) -> Result<EoeResult, WireError> {
        if bytes.len() < 2 {
            Err(WireError::ReadBufferTooShort)
        } else {
            EoeResult::named(word_of(bytes[0], bytes[1]))
        }
    }

    /// Reads a result from the front of `buf`.
    pub fn unpack_from_slice(buf: &[u8]) -> (result: Result<EoeResult, WireError>)
        ensures
            result == EoeResult::unpacked(buf@),
    {
        if buf.len() < 2 {
            return Err(WireError::ReadBufferTooShort);
        }
        EoeResult::try_from(read_word(buf[0], buf[1]))
    }

    /// How many bytes this result takes up on the wire.
    pub fn packed_len(&self) -> (len: usize)
        ensures
            len == self.wire_bytes().len(),
    {
        2
    }

    /// The bytes that this result is written as.
    pub fn pack(&self) -> (packed: [u8; 2])
        ensures
            packed@ == self.wire_bytes(),
    {
        let (low, high) = split_word(u16::from(*self));
        let packed: [u8; 2] = [low, high];
        assert(packed@ =~= self.wire_bytes());
        packed
    }

    /// Writes this result into the front of `buf` and hands that front back. The buffer must be
    /// long enough.
    pub fn pack_to_slice_unchecked<'buf>(&self, buf: &'buf mut [u8]) -> (written: &'buf [u8])
        requires
            self.wire_bytes().len() <= old(buf)@.len(),
        ensures
            written@ == self.wire_bytes(),
            final(buf)@ == overwritten(old(buf)@, self.wire_bytes()),
    {
        write_front(buf, &self.pack())
    }

    /// Writes this result into the front of `buf` and hands that front back, if it fits.
    pub fn pack_to_slice<'buf>(&self, buf: &'buf mut [u8]) -> (written: Result<
        &'buf [u8],
        WireError,
    >)
        ensures
            packs(self.wire_bytes(), old(buf)@, final(buf)@, written),
    {
        try_write_front(buf, &self.pack())
    }
}

impl From<EoeResult> for u16 {
    fn from(result: EoeResult) -> (code: u16) {
        match result {
            EoeResult::Success => 0x0000,
            EoeResult::UnspecifiedError => 0x0001,
            EoeResult::UnsupportedFrameType => 0x0002,
            EoeResult::NoIpSupport => 0x0201,
            EoeResult::NoDhcpSupport => 0x0202,
            EoeResult::NoFilterSupport => 0x0401,
        }
    }
}

impl FromSpecImpl<EoeResult> for u16 {
    open spec fn obeys_from_spec() -> bool {
        true
    }

    open spec fn from_spec(result: EoeResult) -> u16 {
        result.code()
    }
}

impl TryFrom<u16> for EoeResult {
    type Error = WireError;

    fn try_from(code: u16) -> (result: Result<EoeResult, WireError>) {
        match code {
            0x0000 => Ok(EoeResult::Success),
            0x0001 => Ok(EoeResult::UnspecifiedError),
            0x0002 => Ok(EoeResult::UnsupportedFrameType),
            0x0201 => Ok(EoeResult::NoIpSupport),
            0x0202 => Ok(EoeResult::NoDhcpSupport),
            0x0401 => Ok(EoeResult::NoFilterSupport),
            _ => Err(WireError::InvalidValue),
        }
    }
}

impl TryFromSpecImpl<u16> for EoeResult {
    open spec fn obeys_try_from_spec() -> bool {
        true
    }

    open spec fn try_from_spec(code: u16) -> Result<EoeResult, WireError> {
        EoeResult::named(code)
    }
}

} // verus!
