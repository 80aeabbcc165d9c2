//! Where everything stands in an EoE header, byte by byte.
//!
//! The laws here speak of what the functions take and hand out, and of single bytes. Of a header
//! and of fragment bookkeeping they name the fields by way of the model, which shows them.

use vstd::prelude::*;

use super::frame_type::FrameType;
use super::header::{EoeHeader, Fragment, FragmentView, SecondWord};
use super::header_laws::law_fragment_round_trip;
use super::result::EoeResult;
use crate::wire::{bytes_of_word, WireError};

verus! {

/// **The ten frame types have these values**, alone and as a byte on the wire.
pub proof fn law_frame_type_values(frame_type: FrameType, code: u8, packed: [u8; 1])
    requires
        call_ensures(<u8 as From<FrameType>>::from, (frame_type,), code),
        call_ensures(FrameType::pack, (&frame_type,), packed),
    ensures
        packed[0] == code,
        frame_type is FragData <==> code == 0,
        frame_type is InitRespTimestamp <==> code == 1,
        frame_type is InitReq <==> code == 2,
        frame_type is InitResp <==> code == 3,
        frame_type is SetAddrFilterReq <==> code == 4,
        frame_type is SetAddrFilterResp <==> code == 5,
        frame_type is GetIpParamReq <==> code == 6,
        frame_type is GetIpParamResp <==> code == 7,
        frame_type is GetAddrFilterReq <==> code == 8,
        frame_type is GetAddrFilterResp <==> code == 9,
{
    assert(packed@ == frame_type.wire_bytes());
}

/// **A byte is read, or converted, as the frame type that has its value**, and refused where none
/// has it.
pub proof fn law_frame_type_read(
    buf: &[u8],
    read: Result<FrameType, WireError>,
    converted: Result<FrameType, WireError>,
    code: u8,
)
    requires
        call_ensures(FrameType::unpack_from_slice, (buf,), read),
        buf@.len() > 0 ==> call_ensures(
            <FrameType as TryFrom<u8>>::try_from,
            (buf@[0],),
            converted,
        ),
        read matches Ok(frame_type) ==> call_ensures(
            <u8 as From<FrameType>>::from,
            (frame_type,),
            code,
        ),
    ensures
        buf@.len() == 0 ==> read == Err::<FrameType, WireError>(WireError::ReadBufferTooShort),
        buf@.len() > 0 ==> read == converted,
        buf@.len() > 0 ==> (read is Ok <==> buf@[0] < 10),
        read is Ok ==> code == buf@[0],
        buf@.len() > 0 && read is Err ==> read == Err::<FrameType, WireError>(
            WireError::InvalidValue,
        ),
{
}

/// **The six results have these values**, alone and, the low byte first, on the wire.
pub proof fn law_result_values(result: EoeResult, code: u16, packed: [u8; 2])
    requires
        call_ensures(<u16 as From<EoeResult>>::from, (result,), code),
        call_ensures(EoeResult::pack, (&result,), packed),
    ensures
        packed[0] + 256 * packed[1] == code,
        result is Success <==> code == 0,
        result is UnspecifiedError <==> code == 1,
        result is UnsupportedFrameType <==> code == 2,
        result is NoIpSupport <==> code == 0x0201,
        result is NoDhcpSupport <==> code == 0x0202,
        result is NoFilterSupport <==> code == 0x0401,
{
    assert(packed@ == result.wire_bytes());
    assert(packed[0] == packed@[0] && packed[1] == packed@[1]);
}

/// **Two bytes, the low one first, are read as the result that has their value**, and a word is
/// converted in the same way; both are refused where none has it.
pub proof fn law_result_read(
    buf: &[u8],
    read: Result<EoeResult, WireError>,
    word: u16,
    converted: Result<EoeResult, WireError>,
    code: u16,
)
    requires
        call_ensures(EoeResult::unpack_from_slice, (buf,), read),
        buf@.len() >= 2 ==> word == buf@[0] + 256 * buf@[1],
        call_ensures(<EoeResult as TryFrom<u16>>::try_from, (word,), converted),
        converted matches Ok(result) ==> call_ensures(
            <u16 as From<EoeResult>>::from,
            (result,),
            code,
        ),
    ensures
        buf@.len() < 2 ==> read == Err::<EoeResult, WireError>(WireError::ReadBufferTooShort),
        buf@.len() >= 2 ==> read == converted,
        converted is Ok ==> code == word,
        converted is Ok <==> word == 0 || word == 1 || word == 2 || word == 0x0201 || word == 0x0202
            || word == 0x0401,
        converted is Err ==> converted == Err::<EoeResult, WireError>(WireError::InvalidValue),
{
}

/// **A new header holds what it was made of**, and zeros.
pub proof fn law_new_header(frame_type: FrameType, port: u8, header: EoeHeader, packed: [u8; 4])
    requires
        call_ensures(EoeHeader::new, (frame_type, port), header),
        call_ensures(EoeHeader::pack, (&header,), packed),
    ensures
        header@.frame_type == frame_type,
        header@.port == port,
        !header@.last_fragment,
        !header@.time_append,
        !header@.time_request,
        packed[1] == 0,
        packed[2] == 0,
        packed[3] == 0,
{
    lemma_packed(header, packed);
}

/// The four bytes of a header, with the second word split in two.
proof fn lemma_packed(header: EoeHeader, packed: [u8; 4])
    requires
        call_ensures(EoeHeader::pack, (&header,), packed),
    ensures
        packed@ == header@.wire_bytes(),
        packed[0] == packed@[0],
        packed[1] == packed@[1],
        packed[2] == header@.second_word % 256,
        packed[3] == header@.second_word / 256,
        packed[2] + 256 * packed[3] == header@.second_word,
{
    let word = bytes_of_word(header@.second_word);
    assert(packed@ == header@.wire_bytes());
    assert(packed@[2] == word[0] && packed@[3] == word[1]);
}

/// The fields of the second word, cut out of its two bytes.
proof fn lemma_word_by_bytes(word: u16)
    by (bit_vector)
    ensures
        word % 64 == (word % 256) % 64,
        word / 64 % 64 == (word % 256) / 64 + 4 * ((word / 256) % 16),
        word / 4096 == (word / 256) / 16,
        (word % 256) / 64 < 4,
{
}

/// Six bits, of which two stand in one byte and four in the next.
proof fn lemma_six_bits(value: u8, low: int, high: int)
    requires
        value % 64 == low + 4 * high,
        0 <= low < 4,
        0 <= high < 16,
    ensures
        value % 4 == low,
        value / 4 % 16 == high,
{
}

/// **Every field of the first word has its place**: the frame type in the four lower bits of the
/// first byte, the low four bits of the port above it, and three flags in the lowest bits of the
/// second byte.
pub proof fn law_first_word(header: EoeHeader, packed: [u8; 4], code: u8)
    requires
        call_ensures(EoeHeader::pack, (&header,), packed),
        call_ensures(<u8 as From<FrameType>>::from, (header@.frame_type,), code),
    ensures
        packed[0] % 16 == code,
        packed[0] / 16 == header@.port % 16,
        packed[1] % 2 == 1 <==> header@.last_fragment,
        packed[1] / 2 % 2 == 1 <==> header@.time_append,
        packed[1] / 4 % 2 == 1 <==> header@.time_request,
        packed[1] < 8,
{
    lemma_packed(header, packed);
}

/// **Every field of a header is read from its place**, and the frame type alone decides whether
/// four bytes are a header. The second word is kept as it is.
pub proof fn law_header_read(
    buf: &[u8],
    read: Result<EoeHeader, WireError>,
    code: u8,
    packed: [u8; 4],
)
    requires
        call_ensures(EoeHeader::unpack_from_slice, (buf,), read),
        read matches Ok(header) ==> {
            &&& call_ensures(<u8 as From<FrameType>>::from, (header@.frame_type,), code)
            &&& call_ensures(EoeHeader::pack, (&header,), packed)
        },
    ensures
        buf@.len() < 4 ==> read == Err::<EoeHeader, WireError>(WireError::ReadBufferTooShort),
        buf@.len() >= 4 ==> (read is Ok <==> buf@[0] % 16 < 10),
        buf@.len() >= 4 && read is Err ==> read == Err::<EoeHeader, WireError>(
            WireError::InvalidValue,
        ),
        read matches Ok(header) ==> {
            &&& code == buf@[0] % 16
            &&& header@.port == buf@[0] / 16
            &&& header@.last_fragment <==> buf@[1] % 2 == 1
            &&& header@.time_append <==> buf@[1] / 2 % 2 == 1
            &&& header@.time_request <==> buf@[1] / 4 % 2 == 1
            &&& packed[2] == buf@[2]
            &&& packed[3] == buf@[3]
        },
{
    if let Ok(header) = read {
        lemma_packed(header, packed);
        assert(header@.second_word == buf@[2] + 256 * buf@[3]);
    }
}

/// **Fragment bookkeeping is cut out of the second word of a data frame**: six bits of fragment
/// number, six bits of offset and four bits of frame number, from the lowest on. The six bits in
/// the middle count 32 bytes each. They are the offset of every fragment but the first, whose
/// offset is not told, and the size of the frame for the first.
pub proof fn law_fragment_bytes(
    header: EoeHeader,
    packed: [u8; 4],
    fragment: Option<Fragment>,
    offset: Option<u16>,
    size: Option<u16>,
)
    requires
        call_ensures(EoeHeader::pack, (&header,), packed),
        call_ensures(EoeHeader::fragment, (&header,), fragment),
        fragment matches Some(found) ==> {
            &&& call_ensures(Fragment::offset, (&found,), offset)
            &&& call_ensures(Fragment::total_frame_size, (&found,), size)
        },
    ensures
        fragment is Some <==> header@.frame_type is FragData,
        fragment matches Some(found) ==> {
            &&& found@.number == packed[2] % 64
            &&& found@.raw_offset == packed[2] / 64 + 4 * (packed[3] % 16)
            &&& found@.frame_number == packed[3] / 16
            &&& packed[2] % 64 == 0 ==> {
                &&& offset is None
                &&& size matches Some(bytes) && bytes == 32 * (packed[2] / 64 + 4 * (packed[3]
                    % 16))
            }
            &&& packed[2] % 64 > 0 ==> {
                &&& size is None
                &&& offset matches Some(bytes) && bytes == 32 * (packed[2] / 64 + 4 * (packed[3]
                    % 16))
            }
        },
{
    lemma_packed(header, packed);
    lemma_word_by_bytes(header@.second_word);
    if let Some(found) = fragment {
        law_offset_field(found, offset, size);
    }
}

/// **The offset field of any bookkeeping counts 32 bytes.**
pub proof fn law_offset_field(fragment: Fragment, offset: Option<u16>, size: Option<u16>)
    requires
        call_ensures(Fragment::offset, (&fragment,), offset),
        call_ensures(Fragment::total_frame_size, (&fragment,), size),
    ensures
        fragment@.number > 0 ==> size is None && (offset matches Some(bytes) && bytes == 32
            * fragment@.raw_offset),
        fragment@.number == 0 ==> offset is None && (size matches Some(bytes) && bytes == 32
            * fragment@.raw_offset),
{
}

/// **The second word of each of the five responses is the result**, the low byte first: the one
/// that has the value of the word, or, where none has it, the word itself. No other frame has a
/// result.
pub proof fn law_result_bytes(
    header: EoeHeader,
    packed: [u8; 4],
    result: Option<Result<EoeResult, u16>>,
    code: u16,
)
    requires
        call_ensures(EoeHeader::pack, (&header,), packed),
        call_ensures(EoeHeader::result, (&header,), result),
        result matches Some(Ok(named)) ==> call_ensures(
            <u16 as From<EoeResult>>::from,
            (named,),
            code,
        ),
    ensures
        result is Some <==> {
            ||| header@.frame_type is InitRespTimestamp
            ||| header@.frame_type is InitResp
            ||| header@.frame_type is SetAddrFilterResp
            ||| header@.frame_type is GetIpParamResp
            ||| header@.frame_type is GetAddrFilterResp
        },
        result matches Some(Ok(_)) ==> code == packed[2] + 256 * packed[3],
        result matches Some(Err(raw)) ==> {
            &&& raw == packed[2] + 256 * packed[3]
            &&& raw > 2 && raw != 0x0201 && raw != 0x0202 && raw != 0x0401
        },
{
    lemma_packed(header, packed);
}

/// **The second word tells what the two shorter questions tell**: bookkeeping, a result, or, where
/// neither is there, nothing.
pub proof fn law_second_word(
    header: EoeHeader,
    meaning: SecondWord,
    fragment: Option<Fragment>,
    result: Option<Result<EoeResult, u16>>,
)
    requires
        call_ensures(EoeHeader::second_word, (&header,), meaning),
        call_ensures(EoeHeader::fragment, (&header,), fragment),
        call_ensures(EoeHeader::result, (&header,), result),
    ensures
        meaning is Fragment <==> fragment is Some,
        meaning matches SecondWord::Fragment(told) ==> told@ == fragment->0@,
        meaning is Result <==> result is Some,
        meaning matches SecondWord::Result(told) ==> result == Some(told),
        meaning is Unused <==> {
            ||| header@.frame_type is InitReq
            ||| header@.frame_type is SetAddrFilterReq
            ||| header@.frame_type is GetIpParamReq
            ||| header@.frame_type is GetAddrFilterReq
        },
{
}

/// **Setting fragment bookkeeping fills the second word and nothing else**: six bits of fragment
/// number, six of offset and four of frame number, from the lowest on, each cut down to its width.
pub proof fn law_with_fragment(
    header: EoeHeader,
    before: [u8; 4],
    number: u8,
    raw_offset: u8,
    frame_number: u8,
    set: EoeHeader,
    after: [u8; 4],
)
    requires
        call_ensures(EoeHeader::pack, (&header,), before),
        call_ensures(
            EoeHeader::with_fragment,
            (header, number, raw_offset, frame_number),
            set,
        ),
        call_ensures(EoeHeader::pack, (&set,), after),
    ensures
        after[0] == before[0],
        after[1] == before[1],
        after[2] % 64 == number % 64,
        after[2] / 64 == raw_offset % 4,
        after[3] % 16 == raw_offset / 4 % 16,
        after[3] / 16 == frame_number % 16,
        set@.frame_type == header@.frame_type,
        set@.port == header@.port,
{
    lemma_packed(header, before);
    lemma_packed(set, after);
    lemma_word_by_bytes(set@.second_word);
    law_fragment_round_trip(FragmentView { number, raw_offset, frame_number });
    lemma_six_bits(raw_offset, (after[2] / 64) as int, (after[3] % 16) as int);
}

/// **Setting a result fills the second word with its value and changes nothing else.**
pub proof fn law_with_result(
    header: EoeHeader,
    before: [u8; 4],
    result: EoeResult,
    code: u16,
    set: EoeHeader,
    after: [u8; 4],
)
    requires
        call_ensures(EoeHeader::pack, (&header,), before),
        call_ensures(<u16 as From<EoeResult>>::from, (result,), code),
        call_ensures(EoeHeader::with_result, (header, result), set),
        call_ensures(EoeHeader::pack, (&set,), after),
    ensures
        after[0] == before[0],
        after[1] == before[1],
        after[2] + 256 * after[3] == code,
        set@.frame_type == header@.frame_type,
        set@.port == header@.port,
{
    lemma_packed(header, before);
    lemma_packed(set, after);
}

/// **A header goes into the front of a buffer**, if four bytes fit, and the rest of the buffer
/// stays as it is. Where they do not fit, all of it stays.
pub proof fn law_header_written<'a>(
    header: EoeHeader,
    packed: [u8; 4],
    buf: &'a mut [u8],
    written: Result<&'a [u8], WireError>,
)
    requires
        call_ensures(EoeHeader::pack, (&header,), packed),
        call_ensures(EoeHeader::pack_to_slice, (&header, buf), written),
    ensures
        final(buf)@.len() == old(buf)@.len(),
        old(buf)@.len() >= 4 ==> {
            &&& written matches Ok(front) && front@ == packed@
            &&& forall|i: int| 0 <= i < 4 ==> #[trigger] final(buf)@[i] == packed[i]
            &&& forall|i: int|
                4 <= i < old(buf)@.len() ==> #[trigger] final(buf)@[i] == old(buf)@[i]
        },
        old(buf)@.len() < 4 ==> {
            &&& written == Err::<&[u8], WireError>(WireError::WriteBufferTooShort)
            &&& final(buf)@ == old(buf)@
        },
{
}

/// **Writing a header into a buffer that is long enough is writing it into that buffer.**
pub proof fn law_header_written_unchecked<'a>(
    header: EoeHeader,
    packed: [u8; 4],
    buf: &'a mut [u8],
    written: &'a [u8],
    len: usize,
)
    requires
        call_ensures(EoeHeader::pack, (&header,), packed),
        call_ensures(EoeHeader::packed_len, (&header,), len),
        call_ensures(EoeHeader::pack_to_slice_unchecked, (&header, buf), written),
        old(buf)@.len() >= 4,
    ensures
        len == 4,
        written@ == packed@,
        final(buf)@.len() == old(buf)@.len(),
        forall|i: int| 0 <= i < 4 ==> #[trigger] final(buf)@[i] == packed[i],
        forall|i: int| 4 <= i < old(buf)@.len() ==> #[trigger] final(buf)@[i] == old(buf)@[i],
{
}

/// **A frame type goes into the first byte of a buffer, a result into the first two**, if there is
/// room, and the rest of the buffer stays as it is.
pub proof fn law_frame_type_and_result_written<'a>(
    frame_type: FrameType,
    type_packed: [u8; 1],
    type_buf: &'a mut [u8],
    type_written: Result<&'a [u8], WireError>,
    result: EoeResult,
    result_packed: [u8; 2],
    result_buf: &'a mut [u8],
    result_written: Result<&'a [u8], WireError>,
)
    requires
        call_ensures(FrameType::pack, (&frame_type,), type_packed),
        call_ensures(FrameType::pack_to_slice, (&frame_type, type_buf), type_written),
        call_ensures(EoeResult::pack, (&result,), result_packed),
        call_ensures(EoeResult::pack_to_slice, (&result, result_buf), result_written),
    ensures
        old(type_buf)@.len() == 0 ==> {
            &&& type_written == Err::<&[u8], WireError>(WireError::WriteBufferTooShort)
            &&& final(type_buf)@ == old(type_buf)@
        },
        old(type_buf)@.len() > 0 ==> {
            &&& type_written matches Ok(front) && front@ == type_packed@
            &&& final(type_buf)@ == old(type_buf)@.update(0, type_packed[0])
        },
        old(result_buf)@.len() < 2 ==> {
            &&& result_written == Err::<&[u8], WireError>(WireError::WriteBufferTooShort)
            &&& final(result_buf)@ == old(result_buf)@
        },
        old(result_buf)@.len() >= 2 ==> {
            &&& result_written matches Ok(front) && front@ == result_packed@
            &&& final(result_buf)@ == old(result_buf)@.update(0, result_packed[0]).update(
                1,
                result_packed[1],
            )
        },
{
    if old(type_buf)@.len() > 0 {
        assert(final(type_buf)@ =~= old(type_buf)@.update(0, type_packed[0]));
    }
    if old(result_buf)@.len() >= 2 {
        assert(final(result_buf)@ =~= old(result_buf)@.update(0, result_packed[0]).update(
            1,
            result_packed[1],
        ));
    }
}

/// **A frame type takes up one byte and a result two**, and they go into the front of a buffer
/// that is long enough.
pub proof fn law_frame_type_and_result_written_unchecked<'a>(
    frame_type: FrameType,
    type_packed: [u8; 1],
    type_len: usize,
    type_buf: &'a mut [u8],
    type_written: &'a [u8],
    result: EoeResult,
    result_packed: [u8; 2],
    result_len: usize,
    result_buf: &'a mut [u8],
    result_written: &'a [u8],
)
    requires
        call_ensures(FrameType::pack, (&frame_type,), type_packed),
        call_ensures(FrameType::packed_len, (&frame_type,), type_len),
        call_ensures(FrameType::pack_to_slice_unchecked, (&frame_type, type_buf), type_written),
        old(type_buf)@.len() > 0,
        call_ensures(EoeResult::pack, (&result,), result_packed),
        call_ensures(EoeResult::packed_len, (&result,), result_len),
        call_ensures(EoeResult::pack_to_slice_unchecked, (&result, result_buf), result_written),
        old(result_buf)@.len() >= 2,
    ensures
        type_len == 1,
        type_written@ == type_packed@,
        final(type_buf)@ == old(type_buf)@.update(0, type_packed[0]),
        result_len == 2,
        result_written@ == result_packed@,
        final(result_buf)@ == old(result_buf)@.update(0, result_packed[0]).update(
            1,
            result_packed[1],
        ),
{
    assert(final(type_buf)@ =~= old(type_buf)@.update(0, type_packed[0]));
    assert(final(result_buf)@ =~= old(result_buf)@.update(0, result_packed[0]).update(
        1,
        result_packed[1],
    ));
}

} // verus!
