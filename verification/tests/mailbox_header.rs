//! The mailbox header.

use arbitrary::{Arbitrary, Unstructured};
use ethercat_mailbox::{MailboxHeader, MailboxType, Priority, WireError};

const PRIORITIES: [Priority; 4] =
    [Priority::Lowest, Priority::Low, Priority::High, Priority::Highest];

const MAILBOX_TYPES: [(u8, MailboxType); 7] = [
    (0x00, MailboxType::Error),
    (0x01, MailboxType::Aoe),
    (0x02, MailboxType::Eoe),
    (0x03, MailboxType::Coe),
    (0x04, MailboxType::Foe),
    (0x05, MailboxType::Soe),
    (0x0f, MailboxType::VendorSpecific),
];

/// A header with every field drawn at random, its counter from 1 to 7.
#[derive(Clone, Debug)]
struct AnyHeader(MailboxHeader);

impl<'a> Arbitrary<'a> for AnyHeader {
    fn arbitrary(u: &mut Unstructured<'a>) -> arbitrary::Result<Self> {
        Ok(AnyHeader(MailboxHeader {
            length: Arbitrary::arbitrary(u)?,
            priority: PRIORITIES[u.choose_index(PRIORITIES.len())?],
            mailbox_type: MAILBOX_TYPES[u.choose_index(MAILBOX_TYPES.len())?].1,
            // 0..=6 shifted up by 1 so we get the valid range 1..=7
            counter: u.choose_index(7)? as u8 + 1,
        }))
    }
}

#[test]
fn mailbox_header_fuzz() {
    heckcheck::check(|AnyHeader(status): AnyHeader| {
        let packed = status.pack();

        let unpacked = MailboxHeader::unpack_from_slice(&packed).expect("Unpack");

        assert_eq!(status, unpacked);

        Ok(())
    });
}

#[test]
fn encode_header() {
    // From wireshark capture
    let expected = [0x0a, 0x00, 0x00, 0x00, 0x00, 0x33];

    let packed = MailboxHeader {
        length: 10,
        priority: Priority::Lowest,
        counter: 3,
        mailbox_type: MailboxType::Coe,
    }
    .pack();

    assert_eq!(packed, expected);
}

#[test]
fn decode_header() {
    let raw = [0x0a, 0x00, 0x00, 0x00, 0x00, 0x23, 0x00, 0x20];

    let expected = MailboxHeader {
        length: 10,
        priority: Priority::Lowest,
        mailbox_type: MailboxType::Coe,
        counter: 2,
    };

    let parsed = MailboxHeader::unpack_from_slice(&raw).unwrap();

    assert_eq!(parsed, expected);
}

#[test]
fn every_field_has_its_place() {
    let header = MailboxHeader {
        length: 0x1234,
        priority: Priority::High,
        mailbox_type: MailboxType::Eoe,
        counter: 7,
    };

    assert_eq!(header.packed_len(), 6);
    assert_eq!(header.pack(), [0x34, 0x12, 0x00, 0x00, 0x80, 0x72]);
}

#[test]
fn address_and_reserved_bits_are_not_looked_at() {
    let header = MailboxHeader::unpack_from_slice(&[0x34, 0x12, 0x01, 0x10, 0xBF, 0xF2]).unwrap();

    assert_eq!(header.pack(), [0x34, 0x12, 0x00, 0x00, 0x80, 0x72]);
}

#[test]
fn a_counter_wider_than_its_field_is_truncated() {
    let mut header = MailboxHeader {
        length: 0,
        priority: Priority::Lowest,
        mailbox_type: MailboxType::Error,
        counter: 9,
    };
    assert_eq!(header.pack(), [0, 0, 0, 0, 0, 0x10]);

    let read_back = MailboxHeader::unpack_from_slice(&header.pack());
    header.counter = 1;
    assert_eq!(read_back, Ok(header));
}

#[test]
fn reserved_mailbox_types_are_refused() {
    for code in 0x06..=0x0e {
        assert_eq!(
            MailboxHeader::unpack_from_slice(&[0, 0, 0, 0, 0, code]),
            Err(WireError::InvalidValue)
        );
        assert_eq!(MailboxType::try_from(code), Err(WireError::InvalidValue));
    }
    assert_eq!(
        MailboxHeader::unpack_from_slice(&[0, 0, 0, 0, 0]),
        Err(WireError::ReadBufferTooShort)
    );
}

#[test]
fn a_mailbox_header_is_written_into_the_front_of_a_buffer() {
    let header = MailboxHeader {
        length: 1,
        priority: Priority::Highest,
        mailbox_type: MailboxType::VendorSpecific,
        counter: 4,
    };

    let mut buffer = [0xEEu8; 7];
    assert_eq!(header.pack_to_slice(&mut buffer), Ok(&[1u8, 0, 0, 0, 0xC0, 0x4F][..]));
    assert_eq!(buffer, [1, 0, 0, 0, 0xC0, 0x4F, 0xEE]);

    let mut buffer = [0xEEu8; 6];
    assert_eq!(header.pack_to_slice_unchecked(&mut buffer), &[1u8, 0, 0, 0, 0xC0, 0x4F][..]);

    let mut buffer = [0xEEu8; 5];
    assert_eq!(header.pack_to_slice(&mut buffer), Err(WireError::WriteBufferTooShort));
    assert_eq!(buffer, [0xEE; 5]);
}

#[test]
fn mailbox_types_convert_to_their_values_and_back() {
    for (code, mailbox_type) in MAILBOX_TYPES {
        assert_eq!(u8::from(mailbox_type), code);
        assert_eq!(MailboxType::try_from(code), Ok(mailbox_type));
        assert_eq!(mailbox_type.pack(), [code]);
        assert_eq!(mailbox_type.packed_len(), 1);
        assert_eq!(MailboxType::unpack_from_slice(&[code, 0x77]), Ok(mailbox_type));

        let mut buffer = [0xEEu8; 2];
        assert_eq!(mailbox_type.pack_to_slice(&mut buffer), Ok(&[code][..]));
        assert_eq!(mailbox_type.pack_to_slice_unchecked(&mut buffer), &[code][..]);
        assert_eq!(buffer, [code, 0xEE]);
        assert_eq!(mailbox_type.pack_to_slice(&mut []), Err(WireError::WriteBufferTooShort));
    }
    assert_eq!(MailboxType::unpack_from_slice(&[]), Err(WireError::ReadBufferTooShort));
    assert_eq!(MailboxType::unpack_from_slice(&[0x10]), Err(WireError::InvalidValue));
}

#[test]
fn an_undefined_priority_reads_as_the_lowest() {
    for (code, priority) in PRIORITIES.into_iter().enumerate() {
        assert_eq!(u8::from(priority), code as u8);
        assert_eq!(Priority::from(code as u8), priority);
        assert_eq!(priority.pack(), [code as u8]);
        assert_eq!(priority.packed_len(), 1);
        assert_eq!(Priority::unpack_from_slice(&[code as u8, 9]), Ok(priority));

        let mut buffer = [0xEEu8; 2];
        assert_eq!(priority.pack_to_slice(&mut buffer), Ok(&[code as u8][..]));
        assert_eq!(priority.pack_to_slice_unchecked(&mut buffer), &[code as u8][..]);
        assert_eq!(buffer, [code as u8, 0xEE]);
        assert_eq!(priority.pack_to_slice(&mut []), Err(WireError::WriteBufferTooShort));
    }
    assert_eq!(Priority::default(), Priority::Lowest);
    assert_eq!(Priority::from(4), Priority::Lowest);
    assert_eq!(Priority::unpack_from_slice(&[0xFF]), Ok(Priority::Lowest));
    assert_eq!(Priority::unpack_from_slice(&[]), Err(WireError::ReadBufferTooShort));
}
