//! The IP parameter payload.

use ethercat_mailbox::{IpParam, Ipv4Addr, WireError};

#[test]
fn an_ip_and_a_subnet_pack_into_the_payload_soem_would_write() {
    let param = IpParam {
        ip: Some(Ipv4Addr::new(192, 168, 1, 10)),
        subnet: Some(Ipv4Addr::new(255, 255, 255, 0)),
        ..IpParam::default()
    };

    let mut buffer = [0u8; 12];
    let written = param.pack_to_slice(&mut buffer).expect("room for flags plus two addresses");

    assert_eq!(
        written,
        &[
            0x06, // IP and subnet
            0x00, 0x00, 0x00, // reserved
            10, 1, 168, 192, // 192.168.1.10, last octet first
            0, 255, 255, 255, // 255.255.255.0, last octet first
        ]
    );
}

#[test]
fn an_address_goes_on_the_wire_backwards() {
    let param = IpParam { ip: Some(Ipv4Addr::new(1, 2, 3, 4)), ..IpParam::default() };

    let mut buffer = [0u8; 8];
    let written = param.pack_to_slice(&mut buffer).expect("room");

    assert_eq!(&written[4..8], &[4, 3, 2, 1]);
}

#[test]
fn a_dns_name_occupies_thirty_two_bytes_however_short_it_is() {
    let param = IpParam {
        dns_name: Some(heapless::String::try_from("edge").expect("fits")),
        ..IpParam::default()
    };

    let mut buffer = [0u8; 40];
    let written = param.pack_to_slice(&mut buffer).expect("room");

    assert_eq!(written.len(), 4 + 32, "flags word plus the full name field");
    assert_eq!(&written[4..8], b"edge");
    assert!(
        written[8..].iter().all(|byte| *byte == 0),
        "the rest of the field is zero, not omitted"
    );
}

#[test]
fn nothing_set_is_a_flags_word_and_no_fields() {
    let mut buffer = [0u8; 8];
    let param = IpParam::default();
    let written = param.pack_to_slice(&mut buffer).expect("room");

    assert_eq!(written, &[0x00, 0x00, 0x00, 0x00]);
}

#[test]
fn what_was_packed_comes_back_out() {
    let param = IpParam {
        mac: Some([0x02, 0x00, 0x00, 0x11, 0x22, 0x33]),
        ip: Some(Ipv4Addr::new(10, 0, 0, 42)),
        subnet: Some(Ipv4Addr::new(255, 0, 0, 0)),
        gateway: Some(Ipv4Addr::new(10, 0, 0, 1)),
        dns_ip: Some(Ipv4Addr::new(8, 8, 8, 8)),
        dns_name: Some(heapless::String::try_from("murr").expect("fits")),
    };

    let mut buffer = [0u8; 64];
    let written = param.pack_to_slice(&mut buffer).expect("room");

    assert_eq!(IpParam::unpack_from_slice(written), Ok(param));
}

#[test]
fn a_payload_that_stops_short_is_an_error_and_not_a_panic() {
    let claims_an_ip = [0x02, 0x00, 0x00, 0x00, 10, 0];

    assert!(IpParam::unpack_from_slice(&claims_an_ip).is_err());
    assert!(IpParam::unpack_from_slice(&[]).is_err(), "not even the flags word");
}

#[test]
fn a_buffer_too_small_to_write_into_is_an_error_and_not_a_panic() {
    let param = IpParam { ip: Some(Ipv4Addr::new(1, 1, 1, 1)), ..IpParam::default() };

    let mut buffer = [0u8; 7];
    assert!(param.pack_to_slice(&mut buffer).is_err());
}

#[test]
fn all_six_fields_land_where_the_c_source_puts_them() {
    // The round trip cannot see a field pair that was swapped on both sides. This pins every flag
    // bit and every offset against absolute bytes.
    let param = IpParam {
        mac: Some([1, 2, 3, 4, 5, 6]),
        ip: Some(Ipv4Addr::new(10, 0, 0, 1)),
        subnet: Some(Ipv4Addr::new(255, 255, 0, 0)),
        gateway: Some(Ipv4Addr::new(10, 0, 0, 254)),
        dns_ip: Some(Ipv4Addr::new(9, 9, 9, 9)),
        dns_name: Some(heapless::String::try_from("dns").expect("fits")),
    };

    let mut buffer = [0u8; 64];
    let written = param.pack_to_slice(&mut buffer).expect("room");

    assert_eq!(written[0], 0x3F, "all six include flags");
    assert_eq!(&written[1..4], &[0, 0, 0], "reserved");
    assert_eq!(&written[4..10], &[1, 2, 3, 4, 5, 6], "MAC");
    assert_eq!(&written[10..14], &[1, 0, 0, 10], "IP, last octet first");
    assert_eq!(&written[14..18], &[0, 0, 255, 255], "subnet");
    assert_eq!(&written[18..22], &[254, 0, 0, 10], "gateway");
    assert_eq!(&written[22..26], &[9, 9, 9, 9], "DNS server");
    assert_eq!(&written[26..29], b"dns", "DNS name");
    assert_eq!(written.len(), 4 + 6 + 4 + 4 + 4 + 4 + 32);
}

#[test]
fn the_padding_is_zeroed_and_not_inherited_from_the_caller() {
    let param = IpParam {
        dns_name: Some(heapless::String::try_from("hi").expect("fits")),
        ..IpParam::default()
    };

    let mut buffer = [0xAAu8; 64];
    let written = param.pack_to_slice(&mut buffer).expect("room");

    assert_eq!(&written[1..4], &[0, 0, 0], "reserved bytes, not 0xAA");
    assert_eq!(&written[4..6], b"hi");
    assert!(
        written[6..].iter().all(|byte| *byte == 0),
        "the rest of the name field is zero: {:02x?}",
        &written[6..]
    );
}

#[test]
fn a_dns_name_that_is_not_utf8_says_so() {
    // Reporting this as "buffer too short" sends whoever reads the log looking for a truncated
    // frame that is not there.
    let mut payload = [0u8; 36];
    payload[0] = 0x20;
    payload[4] = 0xFF;
    payload[5] = 0xFE;

    assert_eq!(IpParam::unpack_from_slice(&payload), Err(WireError::InvalidUtf8));
}

#[test]
fn a_name_that_fills_the_field_survives() {
    let long = "x".repeat(IpParam::DNS_NAME_LENGTH);
    let param = IpParam {
        dns_name: Some(heapless::String::try_from(long.as_str()).expect("exactly 32")),
        ..IpParam::default()
    };

    let mut buffer = [0u8; 64];
    let written = param.pack_to_slice(&mut buffer).expect("room");

    assert_eq!(IpParam::unpack_from_slice(written), Ok(param));
}

#[test]
fn a_name_with_a_nul_in_it_comes_back_cut_short() {
    let param = IpParam {
        ip: Some(Ipv4Addr::new(1, 2, 3, 4)),
        dns_name: Some(heapless::String::try_from("a\0b").expect("fits")),
        ..IpParam::default()
    };

    let mut buffer = [0u8; 64];
    let written = param.pack_to_slice(&mut buffer).expect("room");
    assert_eq!(&written[8..11], b"a\0b");

    let read_back = IpParam::unpack_from_slice(written).expect("a payload");
    assert_eq!(read_back.ip, param.ip);
    assert_eq!(read_back.dns_name.as_deref(), Some("a"));
}

#[test]
fn an_empty_name_is_there_and_empty() {
    let param = IpParam {
        dns_name: Some(heapless::String::try_from("").expect("fits")),
        ..IpParam::default()
    };
    assert_eq!(param.packed_len(), 36);

    let mut buffer = [0u8; 36];
    let written = param.pack_to_slice(&mut buffer).expect("room");

    assert_eq!(written[0], 0x20);
    assert_eq!(IpParam::unpack_from_slice(written), Ok(param));
}

#[test]
fn a_name_is_written_and_read_as_utf8() {
    let name = "\u{fc}ber-\u{20ac}-\u{1f980}";
    let param = IpParam {
        dns_name: Some(heapless::String::try_from(name).expect("fits")),
        ..IpParam::default()
    };

    let mut buffer = [0u8; 36];
    let written = param.pack_to_slice(&mut buffer).expect("room");
    assert_eq!(&written[4..4 + name.len()], name.as_bytes());

    let read_back = IpParam::unpack_from_slice(written).expect("a payload");
    assert_eq!(read_back.dns_name.as_deref(), Some(name));
}

#[test]
fn what_follows_the_zero_in_a_name_field_is_not_read() {
    let mut payload = [0u8; 36];
    payload[0] = 0x20;
    payload[4] = b'o';
    payload[5] = b'k';
    payload[7] = 0xFF;

    let read = IpParam::unpack_from_slice(&payload).expect("a payload");
    assert_eq!(read.dns_name.as_deref(), Some("ok"));
}

#[test]
fn a_character_that_the_field_cuts_in_half_is_not_utf8() {
    let mut payload = [b'x'; 37];
    payload[0] = 0x20;
    payload[35] = 0xC3;
    payload[36] = 0xBC;

    assert_eq!(IpParam::unpack_from_slice(&payload), Err(WireError::InvalidUtf8));
}

#[test]
fn flags_alone_are_a_payload_without_fields() {
    assert_eq!(IpParam::unpack_from_slice(&[0x00]), Ok(IpParam::default()));
    assert_eq!(
        IpParam::unpack_from_slice(&[0xC0]),
        Ok(IpParam::default()),
        "the two upper bits name no field"
    );
}

#[test]
fn a_payload_without_fields_may_be_of_any_length() {
    for payload in [&[0x00u8, 9][..], &[0x40, 9, 9], &[0x80, 9, 9, 9], &[0xC0, 9, 9, 9, 9]] {
        assert_eq!(IpParam::unpack_from_slice(payload), Ok(IpParam::default()), "{payload:02x?}");
    }
}

#[test]
fn a_mac_that_ends_in_zero_is_written_whole() {
    let param = IpParam { mac: Some([1, 2, 3, 4, 5, 0]), ..IpParam::default() };

    let mut buffer = [0xAAu8; 10];
    let written = param.pack_to_slice(&mut buffer).expect("room");

    assert_eq!(written, &[0x01, 0, 0, 0, 1, 2, 3, 4, 5, 0]);
    assert_eq!(IpParam::unpack_from_slice(written), Ok(param));
}

#[test]
fn reserved_bytes_upper_flags_and_what_follows_change_nothing() {
    let plain = [0x10, 0, 0, 0, 4, 3, 2, 1];
    let noisy = [0xD0, 9, 9, 9, 4, 3, 2, 1, 7, 7];

    let expected = IpParam { dns_ip: Some(Ipv4Addr::new(1, 2, 3, 4)), ..IpParam::default() };
    assert_eq!(IpParam::unpack_from_slice(&plain), Ok(expected.clone()));
    assert_eq!(IpParam::unpack_from_slice(&noisy), Ok(expected));
}

#[test]
fn every_cut_of_a_full_payload_is_too_short() {
    let param = IpParam {
        mac: Some([1, 2, 3, 4, 5, 6]),
        ip: Some(Ipv4Addr::new(10, 0, 0, 1)),
        subnet: Some(Ipv4Addr::new(255, 255, 0, 0)),
        gateway: Some(Ipv4Addr::new(10, 0, 0, 254)),
        dns_ip: Some(Ipv4Addr::new(9, 9, 9, 9)),
        dns_name: Some(heapless::String::try_from("dns").expect("fits")),
    };
    assert_eq!(param.packed_len(), 58);

    let mut buffer = [0u8; 58];
    let written = param.pack_to_slice_unchecked(&mut buffer);

    for length in 0..58 {
        assert_eq!(
            IpParam::unpack_from_slice(&written[..length]),
            Err(WireError::ReadBufferTooShort),
            "cut to {length} bytes"
        );
    }
}

#[test]
fn a_refused_write_leaves_the_buffer_alone() {
    let param = IpParam { mac: Some([1, 2, 3, 4, 5, 6]), ..IpParam::default() };

    let mut buffer = [0xAAu8; 9];
    assert_eq!(param.pack_to_slice(&mut buffer), Err(WireError::WriteBufferTooShort));
    assert_eq!(buffer, [0xAA; 9]);
}

#[test]
fn what_lies_behind_the_payload_stays() {
    let param = IpParam { gateway: Some(Ipv4Addr::new(1, 2, 3, 4)), ..IpParam::default() };

    let mut buffer = [0xAAu8; 10];
    assert_eq!(param.pack_to_slice(&mut buffer).map(|written| written.len()), Ok(8));
    assert_eq!(buffer, [0x08, 0, 0, 0, 4, 3, 2, 1, 0xAA, 0xAA]);
}

#[test]
fn a_read_payload_is_written_and_read_the_same() {
    let noisy = [0xE4, 1, 2, 3, 0, 255, 255, 255]
        .into_iter()
        .chain(*b"plc-7\0junk")
        .chain([0x11; 22])
        .chain([0x99; 3])
        .collect::<Vec<u8>>();

    let read = IpParam::unpack_from_slice(&noisy).expect("a payload");
    assert_eq!(read.subnet, Some(Ipv4Addr::new(255, 255, 255, 0)));
    assert_eq!(read.dns_name.as_deref(), Some("plc-7"));

    let mut buffer = [0u8; 64];
    let written = read.pack_to_slice(&mut buffer).expect("room");
    assert_eq!(written[0], 0x24);
    assert_eq!(IpParam::unpack_from_slice(written), Ok(read));
}

#[test]
fn an_address_gives_its_octets_back() {
    assert_eq!(Ipv4Addr::new(192, 168, 1, 10).octets(), [192, 168, 1, 10]);
}
