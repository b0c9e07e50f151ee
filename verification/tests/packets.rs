use aes::Aes256;
use cipher::{KeyIvInit, StreamCipher};
use tg_unblock::obfuscated2::{
    analyze_init, classify_decrypted, tag_name, InitResult, TAG_ABRIDGED, TAG_INTERMEDIATE,
    TAG_PADDED_INTERMEDIATE,
};
use tg_unblock::socks5::{parse_dest, DestError};
use tg_unblock::utf8::Utf8Fault;

/// Key and counter block of the AES-256-CTR example in NIST SP 800-38A, F.5.5.
const KEY: [u8; 32] = [
    0x60, 0x3d, 0xeb, 0x10, 0x15, 0xca, 0x71, 0xbe, 0x2b, 0x73, 0xae, 0xf0, 0x85, 0x7d, 0x77, 0x81,
    0x1f, 0x35, 0x2c, 0x07, 0x3b, 0x61, 0x08, 0xd7, 0x2d, 0x98, 0x10, 0xa3, 0x09, 0x14, 0xdf, 0xf4,
];
const COUNTER: [u8; 16] = [
    0xf0, 0xf1, 0xf2, 0xf3, 0xf4, 0xf5, 0xf6, 0xf7, 0xf8, 0xf9, 0xfa, 0xfb, 0xfc, 0xfd, 0xfe, 0xff,
];
/// Bytes 56 to 63 of that example's keystream.
const KEYSTREAM: [u8; 8] = [0xbe, 0xe9, 0x9c, 0x73, 0xa3, 0x15, 0x76, 0xb6];

fn nist_packet(plain: [u8; 8]) -> [u8; 64] {
    let mut packet = [0u8; 64];
    packet[8..40].copy_from_slice(&KEY);
    packet[40..56].copy_from_slice(&COUNTER);
    for i in 0..8 {
        packet[56 + i] = plain[i] ^ KEYSTREAM[i];
    }
    packet
}

fn announcement(tag: u32, raw_dc: i16) -> [u8; 8] {
    let mut plain = [0u8; 8];
    plain[..4].copy_from_slice(&tag.to_le_bytes());
    plain[4..6].copy_from_slice(&raw_dc.to_le_bytes());
    plain
}

#[test]
fn keystream_of_the_published_example() {
    let packet = nist_packet(announcement(TAG_ABRIDGED, 2));
    assert_eq!(
        analyze_init(&packet),
        InitResult::Obfuscated2 { dc: 2, tag: TAG_ABRIDGED, raw_dc: 2 }
    );
    // a packet that is not encrypted is not understood
    let mut plain = packet;
    plain[56..].copy_from_slice(&announcement(TAG_ABRIDGED, 2));
    assert!(matches!(analyze_init(&plain), InitResult::NotObfuscated2 { .. }));
}

#[test]
fn media_data_centres_are_negative() {
    assert_eq!(
        analyze_init(&nist_packet(announcement(TAG_PADDED_INTERMEDIATE, -4))),
        InitResult::Obfuscated2 { dc: 4, tag: TAG_PADDED_INTERMEDIATE, raw_dc: -4 }
    );
}

#[test]
fn data_centre_out_of_range() {
    for raw_dc in [0i16, 6, -6, 100, 10002, i16::MIN, 256] {
        assert_eq!(
            analyze_init(&nist_packet(announcement(TAG_INTERMEDIATE, raw_dc))),
            InitResult::BadDc { tag: TAG_INTERMEDIATE, raw_dc }
        );
    }
}

#[test]
fn the_whole_number_counts() {
    // the low byte alone would name the data centres 1, 3 and 5
    for raw_dc in [257i16, -259, 0x7f05] {
        assert_eq!(
            analyze_init(&nist_packet(announcement(TAG_INTERMEDIATE, raw_dc))),
            InitResult::BadDc { tag: TAG_INTERMEDIATE, raw_dc }
        );
        let mut dec = [0u8; 64];
        dec[56..].copy_from_slice(&announcement(TAG_ABRIDGED, raw_dc));
        assert_eq!(classify_decrypted(&dec), InitResult::BadDc { tag: TAG_ABRIDGED, raw_dc });
    }
}

#[test]
fn unknown_tag() {
    assert_eq!(
        analyze_init(&nist_packet(announcement(0x0102_0304, 2))),
        InitResult::NotObfuscated2 { tag: 0x0102_0304, raw_dc: 2 }
    );
}

#[test]
fn padding_is_ignored() {
    let packet = nist_packet(announcement(TAG_ABRIDGED, 5));
    let mut other = packet;
    for i in (0..8).chain(62..64) {
        other[i] ^= 0x5a;
    }
    assert_eq!(analyze_init(&other), analyze_init(&packet));
}

#[test]
fn sealed_packets_are_understood() {
    for seed in 0..40u8 {
        let mut packet = [0u8; 64];
        for i in 0..56 {
            packet[i] = (i as u8).wrapping_mul(seed.wrapping_mul(2) + 1).wrapping_add(seed);
        }
        let mut stream = packet;
        let (key, iv): (&[u8], &[u8]) = (&packet[8..40], &packet[40..56]);
        ctr::Ctr128BE::<Aes256>::new(key.into(), iv.into()).apply_keystream(&mut stream);
        let raw_dc = seed as i16 - 20;
        let plain = announcement(TAG_ABRIDGED, raw_dc);
        for i in 0..8 {
            packet[56 + i] = stream[56 + i] ^ plain[i];
        }
        let expected = if raw_dc != 0 && raw_dc.abs() <= 5 {
            InitResult::Obfuscated2 { dc: raw_dc.unsigned_abs() as u8, tag: TAG_ABRIDGED, raw_dc }
        } else {
            InitResult::BadDc { tag: TAG_ABRIDGED, raw_dc }
        };
        assert_eq!(analyze_init(&packet), expected);
    }
}

#[test]
fn decrypted_packets_are_classified() {
    let mut dec = [0xaau8; 64];
    dec[56..].copy_from_slice(&announcement(TAG_INTERMEDIATE, 3));
    assert_eq!(
        classify_decrypted(&dec),
        InitResult::Obfuscated2 { dc: 3, tag: TAG_INTERMEDIATE, raw_dc: 3 }
    );
    dec[57] ^= 1;
    assert_eq!(
        classify_decrypted(&dec),
        InitResult::NotObfuscated2 { tag: TAG_INTERMEDIATE ^ 0x100, raw_dc: 3 }
    );
}

#[test]
fn names_of_tags() {
    assert_eq!(tag_name(0xefefefef), "abridged");
    assert_eq!(tag_name(0xeeeeeeee), "intermediate");
    assert_eq!(tag_name(0xdddddddd), "padded-intermediate");
    assert_eq!(tag_name(0), "unknown");
}

#[test]
fn destination_ipv4() {
    assert_eq!(
        parse_dest(&[1, 149, 154, 167, 50, 0x01, 0xbb]),
        Ok(("149.154.167.50".to_string(), 443))
    );
    assert_eq!(
        parse_dest(&[1, 8, 8, 8, 8, 0, 53, 99, 99]),
        Ok(("8.8.8.8".to_string(), 53))
    );
    assert_eq!(parse_dest(&[1, 8, 8, 8, 8, 0]), Err(DestError::Short));
    assert_eq!(parse_dest(&[1]), Err(DestError::Short));
}

#[test]
fn destination_domain() {
    let mut data = vec![3, 11];
    data.extend_from_slice(b"example.org");
    data.extend_from_slice(&[0x1f, 0x90]);
    assert_eq!(parse_dest(&data), Ok(("example.org".to_string(), 8080)));
    data.push(7);
    assert_eq!(parse_dest(&data), Ok(("example.org".to_string(), 8080)));
    data.truncate(14);
    assert_eq!(parse_dest(&data), Err(DestError::Short));
    assert_eq!(parse_dest(&[3, 0, 0, 80]), Ok((String::new(), 80)));
    assert_eq!(parse_dest(&[3, 0, 0]), Err(DestError::Short));
    assert_eq!(parse_dest(&[3, 0]), Err(DestError::Short));

    let name = "почта.рф";
    let mut data = vec![3, name.len() as u8];
    data.extend_from_slice(name.as_bytes());
    data.extend_from_slice(&[0, 25]);
    assert_eq!(parse_dest(&data), Ok((name.to_string(), 25)));
}

#[test]
fn destination_not_utf8() {
    for bytes in [
        &b"ab\xffcd"[..],
        &b"\x80"[..],
        &b"abc\xd0"[..],
        &b"\xf0\x9f\x98"[..],
        &b"x\xe2\x28\xa1"[..],
        &b"\xed\xa0\x80"[..],
    ] {
        let mut data = vec![3, bytes.len() as u8];
        data.extend_from_slice(bytes);
        data.extend_from_slice(&[0, 80]);
        let fault = std::str::from_utf8(bytes).unwrap_err();
        let error = parse_dest(&data).unwrap_err();
        assert_eq!(
            error,
            DestError::NotUtf8(Utf8Fault {
                valid_up_to: fault.valid_up_to(),
                error_len: fault.error_len(),
            })
        );
        assert_eq!(error.message(), fault.to_string());
    }
}

#[test]
fn destination_ipv6() {
    let mut data = vec![4u8];
    data.extend_from_slice(&[
        0x20, 0x01, 0x0b, 0x28, 0xf2, 0x3d, 0xf0, 0x01, 0, 0, 0, 0, 0, 0, 0, 0x0a,
    ]);
    data.extend_from_slice(&[0x01, 0xbb]);
    assert_eq!(parse_dest(&data), Ok(("2001:b28:f23d:f001::a".to_string(), 443)));
    data.truncate(18);
    assert_eq!(parse_dest(&data), Err(DestError::Short));
}

#[test]
fn destination_of_unknown_type() {
    assert_eq!(parse_dest(&[2, 1, 2, 3, 4, 5, 6]), Err(DestError::UnknownAddrType));
    assert_eq!(parse_dest(&[0]), Err(DestError::UnknownAddrType));
    assert_eq!(DestError::UnknownAddrType.message(), "unknown addr type");
    assert_eq!(DestError::Short.message(), "short");
}
