//! The EoE header: two 16 bit words directly behind the mailbox header.
//!
//! ```text
//! word 1:  type(4)  port(4)  last_fragment(1)  time_append(1)  time_request(1)  ...(5)
//! word 2:  fragment_no(6)    frame_offset(6)   frame_no(4)     -- or a result code
//! ```

use vstd::prelude::*;

use super::frame_type::FrameType;
use super::result::EoeResult;
use crate::wire::{
    bytes_of_word, overwritten, packs, read_word, split_word, try_write_front, word_of, write_front,
    WireError,
};

verus! {

/// Fragment bookkeeping, the second header word of a frame that carries data.
///
/// The offset field is **overloaded**: it holds the byte offset divided by 32 for every fragment
/// after the first, and the *total frame size*, rounded up to 32 bytes, for fragment zero. Hence
/// two accessors, each `None` when the raw value does not mean what it asks for.
///
/// Read from an [`EoeHeader`]; `raw_offset` is private, so one cannot be built or fully
/// destructured from outside the crate. Reading the public fields, and matching with a trailing
/// `..`, work as usual.
#[derive(Clone, Copy, Debug, PartialEq, Eq, Structural)]
pub struct Fragment {
    /// Index of this fragment within the frame, counting from zero.
    pub number: u8,
    /// The raw six bit field, in units of 32 bytes. Read it through [`Fragment::offset`] or
    /// [`Fragment::total_frame_size`].
    raw_offset: u8,
    /// Identifies the Ethernet frame these fragments belong to. Wraps after 16.
    pub frame_number: u8,
}

/// The model of a [`Fragment`]: the same fields, with the raw offset in the open.
pub struct FragmentView {
    pub number: u8,
    pub raw_offset: u8,
    pub frame_number: u8,
}

impl View for Fragment {
    type V = FragmentView;

    closed spec fn view(&self) -> FragmentView {
        FragmentView {
            number: self.number,
            raw_offset: self.raw_offset,
            frame_number: self.frame_number,
        }
    }
}

impl FragmentView {
    /// The word that holds this bookkeeping: each value is cut down to its own width, so that
    /// one too large for its field does not reach into a neighbour.
    pub open spec fn word(self) -> u16 {
        (self.number % 64 + 64 * (self.raw_offset % 64) + 4096 * (self.frame_number % 16)) as u16
    }

    /// The byte offset of this fragment, which every fragment but the first carries.
    pub open spec fn offset(self) -> Option<u16> {
        if self.number > 0 {
            Some((self.raw_offset * 32) as u16)
        } else {
            None
        }
    }

    /// The size of the frame, in multiples of 32 bytes, which only the first fragment carries.
    pub open spec fn total_frame_size(self) -> Option<u16> {
        if self.number == 0 {
            Some((self.raw_offset * 32) as u16)
        } else {
            None
        }
    }

    /// The bookkeeping that a word holds.
    pub open spec fn of_word(word: u16) -> FragmentView {
        FragmentView {
            number: (word % 64) as u8,
            raw_offset: (word / 64 % 64) as u8,
            frame_number: (word / 4096) as u8,
        }
    }
}

impl Fragment {
    /// Byte offset of this fragment within the frame.
    ///
    /// `None` for fragment zero, whose field carries the frame size instead.
    pub fn offset(&self) -> (offset: Option<u16>)
        ensures
            offset == self@.offset(),
    {
        if self.number > 0 {
            Some(self.raw_offset as u16 * 32)
        } else {
            None
        }
    }

    /// Total size of the frame being carried, rounded up to a multiple of 32 bytes.
    ///
    /// `None` for every fragment but the first: only fragment zero carries it, and it is what
    /// tells a receiver how large a buffer it needs.
    pub fn total_frame_size(&self) -> (size: Option<u16>)
        ensures
            size == self@.total_frame_size(),
    {
        if self.number == 0 {
            Some(self.raw_offset as u16 * 32)
        } else {
            None
        }
    }
}

/// EoE header: two 16 bit words directly behind the mailbox header.
///
/// The second word is a **union**. Which arm applies is decided by `frame_type` and by nothing in
/// the word itself, so it is not exposed raw. Read it through [`EoeHeader::fragment`] or
/// [`EoeHeader::result`]; each answers `None` when the other one applies.
#[derive(Clone, Copy, Debug, PartialEq, Eq, Structural)]
pub struct EoeHeader {
    /// What this frame is.
    pub frame_type: FrameType,
    /// Which port of the SubDevice the frame belongs to. Zero for devices with one port. Only the
    /// low four bits go on the wire.
    pub port: u8,
    /// Whether this is the last fragment of the Ethernet frame being carried.
    pub last_fragment: bool,
    /// Whether a timestamp is appended to the data.
    pub time_append: bool,
    /// Whether the sender wants a timestamp back.
    pub time_request: bool,
    /// The union: fragment bookkeeping or a result code.
    second_word: u16,
}

/// What the second header word of an [`EoeHeader`] means: it has **three** states.
///
/// | frame type | second word |
/// |---|---|
/// | `FragData` | fragment bookkeeping |
/// | `InitReq`, `GetIpParamReq`, `SetAddrFilterReq`, `GetAddrFilterReq` | unused, written as zero |
/// | the five responses | a result code |
#[non_exhaustive]
#[derive(Clone, Copy, Debug, PartialEq, Eq)]
pub enum SecondWord {
    /// Fragment bookkeeping. Only a data frame carries it.
    Fragment(Fragment),
    /// The result of the request this frame answers.
    ///
    /// `Err` carries the raw value when it is no defined result: worth reporting rather than
    /// discarding, and not a reason to fail decoding the header.
    Result(Result<EoeResult, u16>),
    /// Nothing. A request carries no second word.
    Unused,
}

/// The model of an [`EoeHeader`]: the same fields, with the second word in the open.
pub struct EoeHeaderView {
    pub frame_type: FrameType,
    pub port: u8,
    pub last_fragment: bool,
    pub time_append: bool,
    pub time_request: bool,
    pub second_word: u16,
}

impl View for EoeHeader {
    type V = EoeHeaderView;

    closed spec fn view(&self) -> EoeHeaderView {
        EoeHeaderView {
            frame_type: self.frame_type,
            port: self.port,
            last_fragment: self.last_fragment,
            time_append: self.time_append,
            time_request: self.time_request,
            second_word: self.second_word,
        }
    }
}

/// One for a bit that is set, zero for one that is not.
pub open spec fn bit(set: bool) -> int {
    if set {
        1
    } else {
        0
    }
}

/// The result that a word names, or the word itself where it names none.
pub open spec fn result_of_word(word: u16) -> Result<EoeResult, u16> {
    match EoeResult::named(word) {
        Ok(result) => Ok(result),
        Err(_) => Err(word),
    }
}

impl EoeHeaderView {
    /// The bytes that a header is written as. Of the port only the low four bits are.
    pub open spec fn wire_bytes(self) -> Seq<u8> {
        seq![
            (self.frame_type.code() + 16 * (self.port % 16)) as u8,
            (bit(self.last_fragment) + 2 * bit(self.time_append) + 4 * bit(
                self.time_request,
            )) as u8,
        ] + bytes_of_word(self.second_word)
    }

    /// What the front of `bytes` says.
    pub open spec fn unpacked(bytes: Seq<u8>) -> Result<EoeHeaderView, WireError> {
        if bytes.len() < 4 {
            Err(WireError::ReadBufferTooShort)
        } else {
            match FrameType::named((bytes[0] % 16) as u8) {
                Ok(frame_type) => Ok(
                    EoeHeaderView {
                        frame_type,
                        port: (bytes[0] / 16) as u8,
                        last_fragment: bytes[1] % 2 == 1,
                        time_append: bytes[1] / 2 % 2 == 1,
                        time_request: bytes[1] / 4 % 2 == 1,
                        second_word: word_of(bytes[2], bytes[3]),
                    },
                ),
                Err(error) => Err(error),
            }
        }
    }
}

/// **A header is its model**: two headers, or two sets of fragment bookkeeping, with the same model
/// are the same.
pub proof fn law_model_is_faithful(
    one: EoeHeader,
    other: EoeHeader,
    one_fragment: Fragment,
    other_fragment: Fragment,
)
    ensures
        one@ == other@ <==> one == other,
        one_fragment@ == other_fragment@ <==> one_fragment == other_fragment,
{
}

/// **The model of a header shows its fields**, and that of fragment bookkeeping those of the
/// bookkeeping. Private, as the fields cannot be spoken of where one of them is out of sight.
proof fn law_model_shows_the_fields(header: EoeHeader, fragment: Fragment)
    ensures
        header@.frame_type == header.frame_type,
        header@.port == header.port,
        header@.last_fragment == header.last_fragment,
        header@.time_append == header.time_append,
        header@.time_request == header.time_request,
        header@.second_word == header.second_word,
        fragment@.number == fragment.number,
        fragment@.raw_offset == fragment.raw_offset,
        fragment@.frame_number == fragment.frame_number,
{
}

/// Cutting six or four bits out of a word with a shift and a mask is a division and a remainder.
proof fn lemma_bits_out_of_word(word: u16)
    by (bit_vector)
    ensures
        (word >> 0) & 0x003F == word % 64,
        (word >> 6) & 0x003F == word / 64 % 64,
        (word >> 12) & 0x000F == word / 4096,
{
}

/// Putting three masked values side by side with shifts is a sum: their bits do not meet.
proof fn lemma_bits_into_word(number: u16, raw_offset: u16, frame_number: u16)
    by (bit_vector)
    requires
        number < 256,
        raw_offset < 256,
        frame_number < 256,
    ensures
        ((number & 0x003F) << 0) | ((raw_offset & 0x003F) << 6) | ((frame_number & 0x000F) << 12)
            == number % 64 + 64 * (raw_offset % 64) + 4096 * (frame_number % 16),
{
}

impl EoeHeader {
    /// Mask and shift of the fragment number.
    const FRAGMENT_NO: (u16, u16) = (0x003F, 0);

    /// Mask and shift of the offset or size.
    const FRAME_OFFSET: (u16, u16) = (0x003F, 6);

    /// Mask and shift of the frame number.
    const FRAME_NO: (u16, u16) = (0x000F, 12);

    /// A header for the given frame type and port, with an empty second word.
    pub fn new(frame_type: FrameType, port: u8) -> (header: Self)
        ensures
            header@ == (EoeHeaderView {
                frame_type,
                port,
                last_fragment: false,
                time_append: false,
                time_request: false,
                second_word: 0,
            }),
    {
        EoeHeader {
            frame_type,
            port,
            last_fragment: false,
            time_append: false,
            time_request: false,
            second_word: 0,
        }
    }

    /// Cuts the field with the given mask and shift out of the second word.
    fn get(&self, field: (u16, u16)) -> (value: u8)
        requires
            field.0 <= 0x003F,
            field.1 < 16,
        ensures
            value == (self.second_word >> field.1) & field.0,
    {
        let (mask, shift) = field;
        let word: u16 = self.second_word;
        assert((word >> shift) & mask <= 0x003F) by (bit_vector)
            requires
                mask <= 0x003F,
        ;
        ((word >> shift) & mask) as u8
    }

    /// Masks `value` and moves it to its place in the second word.
    fn put(field: (u16, u16), value: u8) -> (part: u16)
        requires
            field.1 < 16,
        ensures
            part == (value as u16 & field.0) << field.1,
    {
        let (mask, shift) = field;
        (value as u16 & mask) << shift
    }

    /// What the second word means for this frame, decided by the frame type alone.
    ///
    /// See [`SecondWord`] for the three states.
    pub fn second_word(&self) -> (meaning: SecondWord)
        ensures
            self@.frame_type.is_data() ==> (meaning matches SecondWord::Fragment(fragment)
                && fragment@ == FragmentView::of_word(self@.second_word)),
            self@.frame_type.is_request() ==> meaning == SecondWord::Unused,
            self@.frame_type.is_response() ==> meaning == SecondWord::Result(
                result_of_word(self@.second_word),
            ),
    {
        match self.frame_type {
            FrameType::FragData => {
                proof {
                    lemma_bits_out_of_word(self.second_word);
                }
                SecondWord::Fragment(
                    Fragment {
                        number: self.get(Self::FRAGMENT_NO),
                        raw_offset: self.get(Self::FRAME_OFFSET),
                        frame_number: self.get(Self::FRAME_NO),
                    },
                )
            },
            FrameType::InitReq
            | FrameType::GetIpParamReq
            | FrameType::SetAddrFilterReq
            | FrameType::GetAddrFilterReq => SecondWord::Unused,
            FrameType::InitResp
            | FrameType::InitRespTimestamp
            | FrameType::SetAddrFilterResp
            | FrameType::GetIpParamResp
            | FrameType::GetAddrFilterResp => {
                let (low, high) = split_word(self.second_word);
                let wire: [u8; 2] = [low, high];
                match EoeResult::unpack_from_slice(&wire) {
                    Ok(result) => SecondWord::Result(Ok(result)),
                    Err(_) => SecondWord::Result(Err(self.second_word)),
                }
            },
        }
    }

    /// Fragment bookkeeping, or `None` if this frame carries none.
    ///
    /// A convenience over [`second_word`](Self::second_word) for the common case.
    pub fn fragment(&self) -> (fragment: Option<Fragment>)
        ensures
            fragment is Some <==> self@.frame_type.is_data(),
            fragment matches Some(found) ==> found@ == FragmentView::of_word(self@.second_word),
    {
        match self.second_word() {
            SecondWord::Fragment(fragment) => Some(fragment),
            _ => None,
        }
    }

    /// The result of the request this frame answers, or `None` if it answers none.
    ///
    /// A convenience over [`second_word`](Self::second_word) for the common case.
    pub fn result(&self) -> (result: Option<Result<EoeResult, u16>>)
        ensures
            result == if self@.frame_type.is_response() {
                Some(result_of_word(self@.second_word))
            } else {
                None
            },
    {
        match self.second_word() {
            SecondWord::Result(result) => Some(result),
            _ => None,
        }
    }

    /// Set fragment number, offset-or-size and frame number.
    ///
    /// Each value is masked to its own width, so a value too large for its field cannot spill
    /// into a neighbour. `raw_offset` is in units of 32 bytes and means the frame size on
    /// fragment zero - see [`Fragment`].
    pub fn with_fragment(self, number: u8, raw_offset: u8, frame_number: u8) -> (header: Self)
        ensures
            header@ == (EoeHeaderView {
                second_word: (FragmentView { number, raw_offset, frame_number }).word(),
                ..self@
            }),
    {
        proof {
            lemma_bits_into_word(number as u16, raw_offset as u16, frame_number as u16);
        }
        EoeHeader {
            second_word: Self::put(Self::FRAGMENT_NO, number) | Self::put(
                Self::FRAME_OFFSET,
                raw_offset,
            ) | Self::put(Self::FRAME_NO, frame_number),
            ..self
        }
    }

    /// Set the result code. Only meaningful on a frame type that carries one.
    pub fn with_result(self, result: EoeResult) -> (header: Self)
        ensures
            header@ == (EoeHeaderView { second_word: result.code(), ..self@ }),
    {
        EoeHeader { second_word: u16::from(result), ..self }
    }

    /// Reads a header from the front of `buf`. A frame type that is not defined is an error; an
    /// undefined result code is not.
    pub fn unpack_from_slice(buf: &[u8]) -> (header: Result<EoeHeader, WireError>)
        ensures
            match header {
                Ok(read) => EoeHeaderView::unpacked(buf@) == Ok::<EoeHeaderView, WireError>(read@),
                Err(error) => EoeHeaderView::unpacked(buf@) == Err::<EoeHeaderView, WireError>(
                    error,
                ),
            },
    {
        if buf.len() < 4 {
            return Err(WireError::ReadBufferTooShort);
        }
        match FrameType::try_from(buf[0] % 16) {
            Ok(frame_type) => Ok(
                EoeHeader {
                    frame_type,
                    port: buf[0] / 16,
                    last_fragment: buf[1] % 2 == 1,
                    time_append: buf[1] / 2 % 2 == 1,
                    time_request: buf[1] / 4 % 2 == 1,
                    second_word: read_word(buf[2], buf[3]),
                },
            ),
            Err(error) => Err(error),
        }
    }

    /// How many bytes a header takes up on the wire.
    pub fn packed_len(&self) -> (len: usize)
        ensures
            len == self@.wire_bytes().len(),
    {
        4
    }

    /// The bytes that this header is written as.
    pub fn pack(&self) -> (packed: [u8; 4])
        ensures
            packed@ == self@.wire_bytes(),
    {
        let last_fragment: u8 = if self.last_fragment { 1 } else { 0 };
        let time_append: u8 = if self.time_append { 2 } else { 0 };
        let time_request: u8 = if self.time_request { 4 } else { 0 };
        let (low, high) = split_word(self.second_word);
        let packed: [u8; 4] = [
            u8::from(self.frame_type) + 16 * (self.port % 16),
            last_fragment + time_append + time_request,
            low,
            high,
        ];
        assert(bytes_of_word(self.second_word) == seq![low, high]);
        assert(packed@ =~= self@.wire_bytes());
        packed
    }

    /// Writes this header into the front of `buf` and hands that front back. The buffer must be
    /// long enough.
    pub fn pack_to_slice_unchecked<'buf>(&self, buf: &'buf mut [u8]) -> (written: &'buf [u8])
        requires
            self@.wire_bytes().len() <= old(buf)@.len(),
        ensures
            written@ == self@.wire_bytes(),
            final(buf)@ == overwritten(old(buf)@, self@.wire_bytes()),
    {
        write_front(buf, &self.pack())
    }

    /// Writes this header into the front of `buf` and hands that front back, if it fits.
    pub fn pack_to_slice<'buf>(&self, buf: &'buf mut [u8]) -> (written: Result<
        &'buf [u8],
        WireError,
    >)
        ensures
            packs(self@.wire_bytes(), old(buf)@, final(buf)@, written),
    {
        try_write_front(buf, &self.pack())
    }
}

} // verus!
