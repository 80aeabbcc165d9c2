//! What an EoE frame is.

use vstd::prelude::*;
use vstd::std_specs::convert::{FromSpecImpl, TryFromSpecImpl};

use crate::wire::{overwritten, packs, try_write_front, write_front, WireError};

verus! {

/// EoE frame type, the low four bits of the first header word.
///
/// Values 10 to 15 fit the field but are not defined; reading one is an error.
#[derive(Clone, Copy, Debug, PartialEq, Eq, Structural)]
pub enum FrameType {
    /// A fragment of an Ethernet frame.
    FragData,
    /// Initialisation response carrying a timestamp.
    InitRespTimestamp,
    /// Set IP parameters request.
    InitReq,
    /// Set IP parameters response.
    InitResp,
    /// Set address filter request.
    SetAddrFilterReq,
    /// Set address filter response.
    SetAddrFilterResp,
    /// Get IP parameters request.
    GetIpParamReq,
    /// Get IP parameters response.
    GetIpParamResp,
    /// Get address filter request.
    GetAddrFilterReq,
    /// Get address filter response.
    GetAddrFilterResp,
}

impl FrameType {
    /// The value that stands for this frame type on the wire.
    pub open spec fn code(self) -> u8 {
        match self {
            FrameType::FragData => 0,
            FrameType::InitRespTimestamp => 1,
            FrameType::InitReq => 2,
            FrameType::InitResp => 3,
            FrameType::SetAddrFilterReq => 4,
            FrameType::SetAddrFilterResp => 5,
            FrameType::GetIpParamReq => 6,
            FrameType::GetIpParamResp => 7,
            FrameType::GetAddrFilterReq => 8,
            FrameType::GetAddrFilterResp => 9,
        }
    }

    /// The frame type that a value stands for, if it stands for one.
    pub open spec fn named(code: u8) -> Result<FrameType, WireError> {
        match code {
            0 => Ok(FrameType::FragData),
            1 => Ok(FrameType::InitRespTimestamp),
            2 => Ok(FrameType::InitReq),
            3 => Ok(FrameType::InitResp),
            4 => Ok(FrameType::SetAddrFilterReq),
            5 => Ok(FrameType::SetAddrFilterResp),
            6 => Ok(FrameType::GetIpParamReq),
            7 => Ok(FrameType::GetIpParamResp),
            8 => Ok(FrameType::GetAddrFilterReq),
            9 => Ok(FrameType::GetAddrFilterResp),
            _ => Err(WireError::InvalidValue),
        }
    }

    /// Whether a frame of this type carries a piece of an Ethernet frame.
    pub open spec fn is_data(self) -> bool {
        self is FragData
    }

    /// Whether a frame of this type asks for something.
    pub open spec fn is_request(self) -> bool {
        ||| self is InitReq
        ||| self is GetIpParamReq
        ||| self is SetAddrFilterReq
        ||| self is GetAddrFilterReq
    }

    /// Whether a frame of this type answers a request.
    pub open spec fn is_response(self) -> bool {
        ||| self is InitResp
        ||| self is InitRespTimestamp
        ||| self is SetAddrFilterResp
        ||| self is GetIpParamResp
        ||| self is GetAddrFilterResp
    }

    /// The bytes that this frame type is written as.
    pub open spec fn wire_bytes(self) -> Seq<u8> {
        seq![self.code()]
    }

    /// What the front of `bytes` says.
    pub open spec fn unpacked(bytes: Seq<u8>) -> Result<FrameType, WireError> {
        if bytes.len() < 1 {
            Err(WireError::ReadBufferTooShort)
        } else {
            FrameType::named(bytes[0])
        }
    }

    /// Reads a frame type from the front of `buf`.
    pub fn unpack_from_slice(buf: &[u8]) -> (frame_type: Result<FrameType, WireError>)
        ensures
            frame_type == FrameType::unpacked(buf@),
    {
        if buf.len() < 1 {
            return Err(WireError::ReadBufferTooShort);
        }
        FrameType::try_from(buf[0])
    }

    /// How many bytes this frame type takes up on the wire.
    pub fn packed_len(&self) -> (len: usize)
        ensures
            len == self.wire_bytes().len(),
    {
        1
    }

    /// The bytes that this frame type is written as.
    pub fn pack(&self) -> (packed: [u8; 1])
        ensures
            packed@ == self.wire_bytes(),
    {
        let packed: [u8; 1] = [u8::from(*self)];
        assert(packed@ =~= self.wire_bytes());
        packed
    }

    /// Writes this frame type into the front of `buf` and hands that front back. The buffer must be
    /// long enough.
    pub fn pack_to_slice_unchecked<'buf>(&self, buf: &'buf mut [u8]) -> (written: &'buf [u8])
        requires
            self.wire_bytes().len() <= old(buf)@.len(),
        ensures
            written@ == self.wire_bytes(),
            final(buf)@ == overwritten(old(buf)@, self.wire_bytes()),
    {
        write_front(buf, &self.pack())
    }

    /// Writes this frame type into the front of `buf` and hands that front back, if it fits.
    pub fn pack_to_slice<'buf>(&self, buf: &'buf mut [u8]) -> (written: Result<
        &'buf [u8],
        WireError,
    >)
        ensures
            packs(self.wire_bytes(), old(buf)@, final(buf)@, written),
    {
        try_write_front(buf, &self.pack())
    }
}

impl From<FrameType> for u8 {
    fn from(frame_type: FrameType) -> (code: u8) {
        match frame_type {
            FrameType::FragData => 0,
            FrameType::InitRespTimestamp => 1,
            FrameType::InitReq => 2,
            FrameType::InitResp => 3,
            FrameType::SetAddrFilterReq => 4,
            FrameType::SetAddrFilterResp => 5,
            FrameType::GetIpParamReq => 6,
            FrameType::GetIpParamResp => 7,
            FrameType::GetAddrFilterReq => 8,
            FrameType::GetAddrFilterResp => 9,
        }
    }
}

impl FromSpecImpl<FrameType> for u8 {
    open spec fn obeys_from_spec() -> bool {
        true
    }

    open spec fn from_spec(frame_type: FrameType) -> u8 {
        frame_type.code()
    }
}

impl TryFrom<u8> for FrameType {
    type Error = WireError;

    fn try_from(code: u8) -> (frame_type: Result<FrameType, WireError>) {
        match code {
            0 => Ok(FrameType::FragData),
            1 => Ok(FrameType::InitRespTimestamp),
            2 => Ok(FrameType::InitReq),
            3 => Ok(FrameType::InitResp),
            4 => Ok(FrameType::SetAddrFilterReq),
            5 => Ok(FrameType::SetAddrFilterResp),
            6 => Ok(FrameType::GetIpParamReq),
            7 => Ok(FrameType::GetIpParamResp),
            8 => Ok(FrameType::GetAddrFilterReq),
            9 => Ok(FrameType::GetAddrFilterResp),
            _ => Err(WireError::InvalidValue),
        }
    }
}

impl TryFromSpecImpl<u8> for FrameType {
    open spec fn obeys_try_from_spec() -> bool {
        true
    }

    open spec fn try_from_spec(code: u8) -> Result<FrameType, WireError> {
        FrameType::named(code)
    }
}

} // verus!
