//! The EoE header: fields, the second word, and the bytes on the wire.

use arbitrary::{Arbitrary, Unstructured};
use ethercat_mailbox::{EoeHeader, EoeResult, Fragment, FrameType, SecondWord, WireError};

/// A data fragment.
///
/// ```text
/// word 1 = type 0 | port 1 << 4 | last fragment 1 << 8          = 0x0110
/// word 2 = fragment 5 | offset 2 << 6 | frame 7 << 12           = 0x7085
/// ```
///
/// Both are 16 bit words, little-endian on the wire: `10 01 85 70`.
const FRAGMENT: [u8; 4] = [0x10, 0x01, 0x85, 0x70];

/// Every frame type, in the order of their values.
const FRAME_TYPES: [FrameType; 10] = [
    FrameType::FragData,
    FrameType::InitRespTimestamp,
    FrameType::InitReq,
    FrameType::InitResp,
    FrameType::SetAddrFilterReq,
    FrameType::SetAddrFilterResp,
    FrameType::GetIpParamReq,
    FrameType::GetIpParamResp,
    FrameType::GetAddrFilterReq,
    FrameType::GetAddrFilterResp,
];

/// A header with every field drawn at random. The port is a `u8` in a four bit field, so one above
/// 15 would be cut down on the way to the wire.
#[derive(Clone, Debug)]
struct AnyHeader(EoeHeader);

impl<'a> Arbitrary<'a> for AnyHeader {
    fn arbitrary(u: &mut Unstructured<'a>) -> arbitrary::Result<Self> {
        let frame_type = FRAME_TYPES[u.choose_index(FRAME_TYPES.len())?];
        let mut header = EoeHeader::new(frame_type, u.choose_index(16)? as u8);
        header.last_fragment = Arbitrary::arbitrary(u)?;
        header.time_append = Arbitrary::arbitrary(u)?;
        header.time_request = Arbitrary::arbitrary(u)?;
        // Six, six and four bits reach every second word there is.
        let second_word: u16 = Arbitrary::arbitrary(u)?;
        let number = (second_word & 0x3F) as u8;
        let raw_offset = ((second_word >> 6) & 0x3F) as u8;
        let frame_number = (second_word >> 12) as u8;
        Ok(AnyHeader(header.with_fragment(number, raw_offset, frame_number)))
    }
}

#[test]
fn the_two_header_words_decode_field_by_field() {
    let header = EoeHeader::unpack_from_slice(&FRAGMENT).expect("a four byte EoE header");

    assert_eq!(header.frame_type, FrameType::FragData);
    assert_eq!(header.port, 1);
    assert!(header.last_fragment);
    assert!(!header.time_append);
    assert!(!header.time_request);

    let fragment = header.fragment().expect("a data frame carries fragment info");
    assert_eq!(fragment.number, 5);
    assert_eq!(fragment.frame_number, 7);
    assert_eq!(fragment.offset(), Some(64), "2 * 32 bytes");
    assert_eq!(fragment.total_frame_size(), None, "not the first fragment");
    assert_eq!(header.result(), None, "a data frame carries no result");
}

#[test]
fn fragment_zero_carries_the_frame_size_and_not_an_offset() {
    // The size of a 1514 byte frame, rounded up. Reading it as an offset would place the first
    // fragment at byte 1536 instead of at zero.
    let header = EoeHeader::new(FrameType::FragData, 0).with_fragment(0, 48, 3);
    let fragment = header.fragment().expect("fragment info");

    assert_eq!(fragment.total_frame_size(), Some(1536), "48 * 32, 1514 rounded up");
    assert_eq!(fragment.offset(), None, "fragment zero starts at zero by definition");
}

#[test]
fn every_frame_type_is_assigned_the_right_arm_of_the_union() {
    for frame_type in [
        FrameType::InitReq,
        FrameType::GetIpParamReq,
        FrameType::SetAddrFilterReq,
        FrameType::GetAddrFilterReq,
    ] {
        assert_eq!(
            EoeHeader::new(frame_type, 0).second_word(),
            SecondWord::Unused,
            "{frame_type:?} is a request, whose second word is written as zero and never read"
        );
    }

    let SecondWord::Fragment(fragment) = EoeHeader::new(FrameType::FragData, 0).second_word() else {
        panic!("only a data frame carries fragment bookkeeping");
    };
    assert_eq!(fragment.number, 0);
    assert_eq!(fragment.total_frame_size(), Some(0), "the raw offset is zero");
    assert_eq!(fragment.frame_number, 0);

    for frame_type in [
        FrameType::InitResp,
        FrameType::InitRespTimestamp,
        FrameType::SetAddrFilterResp,
        FrameType::GetIpParamResp,
        FrameType::GetAddrFilterResp,
    ] {
        assert_eq!(
            EoeHeader::new(frame_type, 0).second_word(),
            SecondWord::Result(Ok(EoeResult::Success)),
            "{frame_type:?} answers a request, so its second word is that answer"
        );
    }
}

#[test]
fn a_refused_address_filter_is_reachable() {
    // Type 5, result 0x0401.
    let raw = [0x05, 0x00, 0x01, 0x04];
    let header = EoeHeader::unpack_from_slice(&raw).expect("a header");

    assert_eq!(header.result(), Some(Ok(EoeResult::NoFilterSupport)));
    assert_eq!(header.fragment(), None);
}

#[test]
fn a_request_claims_no_frame_size() {
    let header = EoeHeader::new(FrameType::GetIpParamReq, 0);

    assert_eq!(header.fragment(), None);
    assert_eq!(header.result(), None);
    assert_eq!(header.second_word(), SecondWord::Unused);
}

#[test]
fn a_response_carries_a_result_where_a_data_frame_carries_fragment_info() {
    // A SubDevice that refuses a Set-IP for lack of DHCP replies with type 3 and result 0x0202.
    let raw = [0x03, 0x00, 0x02, 0x02];
    let header = EoeHeader::unpack_from_slice(&raw).expect("a header");

    assert_eq!(header.frame_type, FrameType::InitResp);
    assert_eq!(header.result(), Some(Ok(EoeResult::NoDhcpSupport)));
    assert_eq!(
        header.fragment(),
        None,
        "reading fragment numbers off a result code would be nonsense"
    );
}

#[test]
fn an_undefined_result_code_is_reported_and_does_not_fail_the_header() {
    let raw = [0x03, 0x00, 0x03, 0x00];
    let header = EoeHeader::unpack_from_slice(&raw).expect("a header");

    assert_eq!(header.result(), Some(Err(0x0003)));
}

#[test]
fn time_append_and_time_request_are_not_the_same_bit() {
    // Bits 9 and 10 of the first word.
    let only_append = EoeHeader::unpack_from_slice(&[0x00, 0x02, 0x00, 0x00]).expect("hdr");
    assert!(only_append.time_append);
    assert!(!only_append.time_request);

    let only_request = EoeHeader::unpack_from_slice(&[0x00, 0x04, 0x00, 0x00]).expect("hdr");
    assert!(!only_request.time_append);
    assert!(only_request.time_request);
}

#[test]
fn every_frame_type_the_c_source_defines_round_trips() {
    for (value, expected) in [
        (0u8, FrameType::FragData),
        (1, FrameType::InitRespTimestamp),
        (2, FrameType::InitReq),
        (3, FrameType::InitResp),
        (4, FrameType::SetAddrFilterReq),
        (5, FrameType::SetAddrFilterResp),
        (6, FrameType::GetIpParamReq),
        (7, FrameType::GetIpParamResp),
        (8, FrameType::GetAddrFilterReq),
        (9, FrameType::GetAddrFilterResp),
    ] {
        let raw = [value, 0x00, 0x00, 0x00];
        let header = EoeHeader::unpack_from_slice(&raw).expect("a header");
        assert_eq!(header.frame_type, expected, "decoding frame type {value}");

        let mut buffer = [0u8; 4];
        EoeHeader::new(expected, 0).pack_to_slice(&mut buffer).expect("four bytes");
        assert_eq!(buffer, raw, "encoding frame type {value}");
    }
}

#[test]
fn an_undefined_frame_type_is_an_error_and_not_a_panic() {
    // 10..=15 fit in the four bit field but mean nothing.
    for value in 10u8..=15 {
        let raw = [value, 0x00, 0x00, 0x00];
        assert!(
            EoeHeader::unpack_from_slice(&raw).is_err(),
            "frame type {value} must be rejected"
        );
    }
}

#[test]
fn every_result_code_the_c_source_defines_is_covered() {
    for (value, expected) in [
        (0x0000u16, EoeResult::Success),
        (0x0001, EoeResult::UnspecifiedError),
        (0x0002, EoeResult::UnsupportedFrameType),
        (0x0201, EoeResult::NoIpSupport),
        (0x0202, EoeResult::NoDhcpSupport),
        (0x0401, EoeResult::NoFilterSupport),
    ] {
        assert_eq!(
            EoeResult::unpack_from_slice(&value.to_le_bytes()),
            Ok(expected),
            "result {value:#06x}"
        );
        assert_eq!(
            EoeHeader::new(FrameType::InitResp, 0).with_result(expected).result(),
            Some(Ok(expected))
        );
    }
    assert!(EoeResult::unpack_from_slice(&0x0003u16.to_le_bytes()).is_err());
}

#[test]
fn a_header_survives_being_written_and_read_back() {
    let mut original = EoeHeader::new(FrameType::FragData, 0b1010);
    original.last_fragment = true;
    original.time_append = false;
    original.time_request = true;
    let original = original.with_fragment(0x3F, 0x2A, 0x0F);

    let mut buffer = [0u8; 4];
    original.pack_to_slice(&mut buffer).expect("four bytes are enough");

    assert_eq!(
        EoeHeader::unpack_from_slice(&buffer),
        Ok(original),
        "wrote {buffer:02x?}"
    );
}

#[test]
fn the_word_written_is_the_word_the_c_macros_would_write() {
    // The same numbers as in `FRAGMENT`, built instead of parsed. If writing and reading ever
    // agreed on a wrong layout, only a fixed byte sequence would notice.
    let mut header = EoeHeader::new(FrameType::FragData, 1);
    header.last_fragment = true;
    header.time_append = false;
    header.time_request = false;
    let header = header.with_fragment(5, 2, 7);

    let mut buffer = [0u8; 4];
    header.pack_to_slice(&mut buffer).expect("four bytes");

    assert_eq!(buffer, FRAGMENT);
}

#[test]
fn a_value_too_wide_for_its_field_cannot_spill_into_the_next_one() {
    // Without the mask a fragment number of 64 would land in the frame offset and silently move
    // the fragment somewhere else in the frame.
    let header = EoeHeader::new(FrameType::FragData, 0).with_fragment(64, 64, 16);
    let fragment = header.fragment().expect("fragment info");

    assert_eq!(fragment.number, 0);
    // The raw offset, in units of 32 bytes.
    assert_eq!(fragment.total_frame_size(), Some(0));
    assert_eq!(fragment.frame_number, 0);
}

#[test]
fn a_port_wider_than_its_field_is_truncated_and_not_rejected() {
    let mut buffer = [0u8; 4];
    EoeHeader::new(FrameType::FragData, 0xAB).pack_to_slice(&mut buffer).expect("four bytes");

    let read_back = EoeHeader::unpack_from_slice(&buffer).expect("a header");

    assert_eq!(read_back.port, 0x0B, "the high nibble is dropped, not reported");
}

#[test]
fn eoe_header_fuzz() {
    heckcheck::check(|AnyHeader(header): AnyHeader| {
        let mut packed = [0u8; 4];
        header.pack_to_slice(&mut packed).expect("Pack");

        let unpacked = EoeHeader::unpack_from_slice(&packed).expect("Unpack");

        assert_eq!(header, unpacked);
        assert_eq!(header.second_word(), unpacked.second_word());

        Ok(())
    });
}

#[test]
fn the_wire_types_can_be_built_and_read_from_outside_the_crate() {
    let header = EoeHeader::new(FrameType::FragData, 3).with_fragment(0, 2, 1);

    assert_eq!(header.frame_type, FrameType::FragData);
    assert_eq!(header.port, 3);
    assert!(!header.last_fragment);
    assert!(!header.time_append);
    assert!(!header.time_request);

    let fragment: Fragment = header.fragment().expect("Fragment bookkeeping");

    assert_eq!(fragment.number, 0);
    assert_eq!(fragment.frame_number, 1);
    assert_eq!(fragment.total_frame_size(), Some(64));
    assert_eq!(fragment.offset(), None);

    // The union's three arms, and the result arm's payload type.
    assert!(matches!(header.second_word(), SecondWord::Fragment(_)));
    assert_eq!(header.result(), None);

    let refused = EoeHeader::new(FrameType::InitResp, 0).with_result(EoeResult::NoIpSupport);

    assert_eq!(refused.result(), Some(Ok(EoeResult::NoIpSupport)));

    // The IP parameter payload.
    let params = ethercat_mailbox::IpParam::default();

    assert!(params.mac.is_none());
    assert!(params.ip.is_none());
}

#[test]
fn the_raw_offset_is_masked_on_its_own() {
    // 65 is one too many for six bits and leaves 1: 32 bytes. The neighbours stay as they are.
    let fragment = EoeHeader::new(FrameType::FragData, 0)
        .with_fragment(63, 65, 15)
        .fragment()
        .expect("fragment info");

    assert_eq!(fragment.number, 63);
    assert_eq!(fragment.offset(), Some(32));
    assert_eq!(fragment.frame_number, 15);
}

#[test]
fn the_largest_offset_is_sixty_three_times_thirty_two() {
    let fragment = EoeHeader::new(FrameType::FragData, 0)
        .with_fragment(1, 63, 0)
        .fragment()
        .expect("fragment info");

    assert_eq!(fragment.offset(), Some(2016));
    assert_eq!(fragment.total_frame_size(), None);
}

#[test]
fn setting_the_second_word_leaves_the_first_alone() {
    let mut header = EoeHeader::new(FrameType::GetIpParamResp, 9);
    header.last_fragment = true;
    header.time_request = true;

    let with_result = header.with_result(EoeResult::UnspecifiedError);
    assert_eq!(with_result.pack(), [0x97, 0x05, 0x01, 0x00]);

    let with_fragment = header.with_fragment(1, 1, 1);
    assert_eq!(with_fragment.pack(), [0x97, 0x05, 0x41, 0x10]);
    assert_eq!(
        with_fragment.result(),
        Some(Err(0x1041)),
        "the frame type decides, not what was set"
    );
}

#[test]
fn a_short_header_is_refused() {
    assert_eq!(
        EoeHeader::unpack_from_slice(&FRAGMENT[..3]),
        Err(WireError::ReadBufferTooShort)
    );
    assert_eq!(EoeHeader::unpack_from_slice(&[]), Err(WireError::ReadBufferTooShort));
    assert_eq!(
        EoeHeader::unpack_from_slice(&[0x0A, 0, 0]),
        Err(WireError::ReadBufferTooShort),
        "too short comes before undefined"
    );
}

#[test]
fn an_undefined_frame_type_is_an_invalid_value() {
    assert_eq!(
        EoeHeader::unpack_from_slice(&[0x1A, 0x01, 0x85, 0x70]),
        Err(WireError::InvalidValue)
    );
}

#[test]
fn bytes_behind_a_header_are_ignored_and_unused_bits_dropped() {
    let raw = [0x10, 0xF9, 0x85, 0x70, 0xAA, 0xBB];
    let header = EoeHeader::unpack_from_slice(&raw).expect("a header");

    assert_eq!(header.pack(), FRAGMENT);
}

#[test]
fn a_header_is_written_into_the_front_of_a_buffer() {
    let header = EoeHeader::unpack_from_slice(&FRAGMENT).expect("a header");
    assert_eq!(header.packed_len(), 4);

    let mut buffer = [0xEEu8; 6];
    assert_eq!(header.pack_to_slice(&mut buffer), Ok(&FRAGMENT[..]));
    assert_eq!(buffer, [0x10, 0x01, 0x85, 0x70, 0xEE, 0xEE]);

    let mut buffer = [0xEEu8; 5];
    assert_eq!(header.pack_to_slice_unchecked(&mut buffer), &FRAGMENT[..]);
    assert_eq!(buffer, [0x10, 0x01, 0x85, 0x70, 0xEE]);

    let mut buffer = [0xEEu8; 3];
    assert_eq!(header.pack_to_slice(&mut buffer), Err(WireError::WriteBufferTooShort));
    assert_eq!(buffer, [0xEE; 3], "nothing is written");
}

#[test]
fn frame_types_convert_to_their_values_and_back() {
    for (value, frame_type) in FRAME_TYPES.into_iter().enumerate() {
        assert_eq!(u8::from(frame_type), value as u8);
        assert_eq!(FrameType::try_from(value as u8), Ok(frame_type));
        assert_eq!(frame_type.pack(), [value as u8]);
        assert_eq!(frame_type.packed_len(), 1);
        assert_eq!(FrameType::unpack_from_slice(&[value as u8, 0xFF]), Ok(frame_type));
    }
    assert_eq!(FrameType::try_from(10), Err(WireError::InvalidValue));
    assert_eq!(FrameType::unpack_from_slice(&[0xFF]), Err(WireError::InvalidValue));
    assert_eq!(FrameType::unpack_from_slice(&[]), Err(WireError::ReadBufferTooShort));
}

#[test]
fn frame_types_are_written_as_one_byte() {
    let mut buffer = [0xEEu8; 2];
    assert_eq!(FrameType::GetAddrFilterReq.pack_to_slice(&mut buffer), Ok(&[8u8][..]));
    assert_eq!(FrameType::InitReq.pack_to_slice_unchecked(&mut buffer), &[2u8][..]);
    assert_eq!(buffer, [2, 0xEE]);
    assert_eq!(
        FrameType::FragData.pack_to_slice(&mut []),
        Err(WireError::WriteBufferTooShort)
    );
}

#[test]
fn results_convert_to_their_values_and_back() {
    assert_eq!(u16::from(EoeResult::NoDhcpSupport), 0x0202);
    assert_eq!(EoeResult::try_from(0x0401), Ok(EoeResult::NoFilterSupport));
    assert_eq!(EoeResult::try_from(0x0200), Err(WireError::InvalidValue));
    assert_eq!(EoeResult::NoIpSupport.pack(), [0x01, 0x02]);
    assert_eq!(EoeResult::NoIpSupport.packed_len(), 2);
    assert_eq!(EoeResult::unpack_from_slice(&[0x01]), Err(WireError::ReadBufferTooShort));
    assert_eq!(EoeResult::unpack_from_slice(&[0x03, 0x00]), Err(WireError::InvalidValue));
}

#[test]
fn results_are_written_low_byte_first() {
    let mut buffer = [0xEEu8; 3];
    assert_eq!(EoeResult::NoFilterSupport.pack_to_slice(&mut buffer), Ok(&[0x01u8, 0x04][..]));
    assert_eq!(buffer, [0x01, 0x04, 0xEE]);
    assert_eq!(EoeResult::NoDhcpSupport.pack_to_slice_unchecked(&mut buffer), &[0x02u8, 0x02][..]);
    assert_eq!(
        EoeResult::Success.pack_to_slice(&mut buffer[..1]),
        Err(WireError::WriteBufferTooShort)
    );
}
