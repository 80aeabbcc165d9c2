//! What holds between reading and writing an EoE header, and of its second word.

use vstd::prelude::*;

use super::frame_type::FrameType;
use super::header::{result_of_word, EoeHeaderView, FragmentView};
use super::result::EoeResult;
use crate::wire::WireError;

verus! {

/// **A header survives being written and read back**, whatever stands behind it. Of the port the
/// low four bits do; the rest is dropped and not reported.
pub proof fn law_header_round_trip(header: EoeHeaderView, behind: Seq<u8>)
    ensures
        EoeHeaderView::unpacked(header.wire_bytes() + behind) == Ok::<EoeHeaderView, WireError>(
            EoeHeaderView { port: (header.port % 16) as u8, ..header },
        ),
        header.port < 16 ==> EoeHeaderView::unpacked(header.wire_bytes() + behind) == Ok::<
            EoeHeaderView,
            WireError,
        >(header),
{
    let bytes = header.wire_bytes() + behind;
    law_frame_type_round_trip(header.frame_type, seq![]);
    assert(bytes[0] % 16 == header.frame_type.code());
    assert(bytes[0] / 16 == header.port % 16);
}

/// **Writing what was read gives back the bytes that were read**, with the five unused bits of
/// the first word set to zero.
pub proof fn law_header_rewritten(bytes: Seq<u8>)
    ensures
        EoeHeaderView::unpacked(bytes) matches Ok(header) ==> header.wire_bytes() == seq![
            bytes[0],
            (bytes[1] % 8) as u8,
            bytes[2],
            bytes[3],
        ],
{
    if let Ok(header) = EoeHeaderView::unpacked(bytes) {
        assert(header.wire_bytes() =~= seq![bytes[0], (bytes[1] % 8) as u8, bytes[2], bytes[3]]);
    }
}

/// **A header that is long enough is refused for its frame type alone**: for one of the values
/// 10 to 15, which fit the field and mean nothing. Whatever the second word holds, an undefined
/// result code too, the header is read.
pub proof fn law_header_refused(bytes: Seq<u8>)
    requires
        bytes.len() >= 4,
    ensures
        EoeHeaderView::unpacked(bytes) is Err <==> 10 <= bytes[0] % 16 <= 15,
        EoeHeaderView::unpacked(bytes) matches Err(error) ==> error == WireError::InvalidValue,
{
}

/// **Every frame type is read back as it was written**, and no two share a value; every value
/// below ten is one.
pub proof fn law_frame_type_round_trip(frame_type: FrameType, behind: Seq<u8>)
    ensures
        FrameType::unpacked(frame_type.wire_bytes() + behind) == Ok::<FrameType, WireError>(
            frame_type,
        ),
        FrameType::named(frame_type.code()) == Ok::<FrameType, WireError>(frame_type),
        frame_type.code() < 10,
        forall|code: u8|
            (#[trigger] FrameType::named(code)) == Ok::<FrameType, WireError>(frame_type) ==> code
                == frame_type.code(),
        forall|code: u8| (#[trigger] FrameType::named(code)) is Ok <==> code < 10,
{
}

/// **Every result is read back as it was written**, from two bytes and from the second word of a
/// response; no two share a value.
pub proof fn law_result_round_trip(result: EoeResult, behind: Seq<u8>)
    ensures
        EoeResult::unpacked(result.wire_bytes() + behind) == Ok::<EoeResult, WireError>(result),
        result_of_word(result.code()) == Ok::<EoeResult, u16>(result),
        forall|code: u16|
            (#[trigger] EoeResult::named(code)) == Ok::<EoeResult, WireError>(result) ==> code
                == result.code(),
{
}

/// **An undefined result code is reported as it is**: the value handed out in place of a result
/// is the second word, and it is the code of no result.
pub proof fn law_undefined_result_is_reported(word: u16)
    ensures
        result_of_word(word) matches Err(raw) ==> raw == word && forall|result: EoeResult|
            (#[trigger] result.code()) != word,
        result_of_word(word) matches Ok(result) ==> result.code() == word,
{
}

/// **The second word means one thing only**: every frame carries data, asks or answers, and no
/// frame does two of these.
pub proof fn law_one_arm_applies(frame_type: FrameType)
    ensures
        frame_type.is_data() || frame_type.is_request() || frame_type.is_response(),
        !(frame_type.is_data() && frame_type.is_request()),
        !(frame_type.is_data() && frame_type.is_response()),
        !(frame_type.is_request() && frame_type.is_response()),
{
}

/// **Fragment bookkeeping is read back as it was set**, each value cut down to its own width: six
/// bits, six bits and four bits. A value too wide for its field changes no other field.
pub proof fn law_fragment_round_trip(fragment: FragmentView)
    ensures
        FragmentView::of_word(fragment.word()) == (FragmentView {
            number: (fragment.number % 64) as u8,
            raw_offset: (fragment.raw_offset % 64) as u8,
            frame_number: (fragment.frame_number % 16) as u8,
        }),
{
    let number = fragment.number % 64;
    let raw_offset = fragment.raw_offset % 64;
    let frame_number = fragment.frame_number % 16;
    let word = fragment.word();
    assert(word == number + 64 * raw_offset + 4096 * frame_number);
    assert(word / 4096 == frame_number);
    assert(word / 64 == raw_offset + 64 * frame_number);
}

/// **Every second word of a data frame is some bookkeeping**, and setting that bookkeeping gives
/// the same word again.
pub proof fn law_fragment_rewritten(word: u16)
    ensures
        FragmentView::of_word(word).word() == word,
        FragmentView::of_word(word).number < 64,
        FragmentView::of_word(word).raw_offset < 64,
        FragmentView::of_word(word).frame_number < 16,
{
}

/// **The offset field answers one question only**: of a fragment either the offset or the size of
/// the frame is known, never both. What it answers is in units of 32 bytes, and one that was read
/// off the wire is at most 63 of them.
pub proof fn law_offset_or_size(fragment: FragmentView)
    ensures
        fragment.offset() is Some <==> fragment.total_frame_size() is None,
        fragment.total_frame_size() is Some <==> fragment.number == 0,
        fragment.offset() matches Some(offset) ==> offset == 32 * fragment.raw_offset,
        fragment.total_frame_size() matches Some(size) ==> size == 32 * fragment.raw_offset,
        fragment.raw_offset < 64 ==> (fragment.offset() matches Some(offset) ==> offset <= 2016),
        fragment.raw_offset < 64 ==> (fragment.total_frame_size() matches Some(size) ==> size
            <= 2016),
{
}

} // verus!
