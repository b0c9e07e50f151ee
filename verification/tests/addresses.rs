use tg_unblock::ipv4::{parse_ipv4, Ipv4Addr};
use tg_unblock::ipv6::format_ipv6;
use tg_unblock::telegram::{dc_from_host, dc_from_ip, dc_ip, is_telegram_ip, ws_host, ws_url};

fn ip(a: u8, b: u8, c: u8, d: u8) -> Ipv4Addr {
    Ipv4Addr { a, b, c, d }
}

#[test]
fn ipv4_reads_dotted_decimal() {
    assert_eq!(parse_ipv4("0.0.0.0"), Some(ip(0, 0, 0, 0)));
    assert_eq!(parse_ipv4("255.255.255.255"), Some(ip(255, 255, 255, 255)));
    assert_eq!(parse_ipv4("149.154.167.50"), Some(ip(149, 154, 167, 50)));
    assert_eq!(parse_ipv4("1.20.30.4"), Some(ip(1, 20, 30, 4)));
}

#[test]
fn ipv4_refuses_everything_else() {
    for text in [
        "",
        ".",
        "1",
        "1.2.3",
        "1.2.3.",
        ".1.2.3",
        "1.2.3.4.",
        "1.2.3.4.5",
        "1..2.3",
        "256.0.0.1",
        "1.2.3.256",
        "1.2.3.999",
        "1.2.3.1000",
        "01.2.3.4",
        "1.2.3.04",
        "00.0.0.0",
        " 1.2.3.4",
        "1.2.3.4 ",
        "1.2.3.a",
        "+1.2.3.4",
        "-1.2.3.4",
        "0x1.2.3.4",
        "1,2,3,4",
        "1.2.3.\u{664}",
        "example.org",
        "::1",
    ] {
        assert_eq!(parse_ipv4(text), None, "{:?}", text);
    }
}

#[test]
fn ipv4_text_reads_back() {
    for a in [0u8, 1, 9, 10, 99, 100, 149, 255] {
        for d in 0..=255u8 {
            let address = ip(a, d, 7, a ^ d);
            assert_eq!(parse_ipv4(&address.to_text()), Some(address));
        }
    }
    assert_eq!(ip(91, 108, 56, 190).to_text(), "91.108.56.190");
    assert_eq!(ip(0, 10, 200, 0).to_text(), "0.10.200.0");
    assert_eq!(ip(1, 2, 3, 4).to_u32(), 0x0102_0304);
}

#[test]
fn ipv6_canonical_text() {
    assert_eq!(format_ipv6(&[0; 8]), "::");
    assert_eq!(format_ipv6(&[0, 0, 0, 0, 0, 0, 0, 1]), "::1");
    assert_eq!(format_ipv6(&[1, 0, 0, 0, 0, 0, 0, 0]), "1::");
    assert_eq!(format_ipv6(&[0x2001, 0xdb8, 0, 0, 0, 0, 0, 1]), "2001:db8::1");
    assert_eq!(format_ipv6(&[0x2001, 0xb28, 0xf23d, 0xf001, 0, 0, 0, 0xa]), "2001:b28:f23d:f001::a");
    // one zero segment is not left out
    assert_eq!(format_ipv6(&[1, 0, 3, 4, 5, 6, 7, 8]), "1:0:3:4:5:6:7:8");
    assert_eq!(format_ipv6(&[1, 2, 3, 4, 5, 6, 7, 8]), "1:2:3:4:5:6:7:8");
    // the longest run, and the first of two
    assert_eq!(format_ipv6(&[1, 0, 0, 4, 0, 0, 0, 8]), "1:0:0:4::8");
    assert_eq!(format_ipv6(&[1, 0, 0, 4, 5, 0, 0, 8]), "1::4:5:0:0:8");
    assert_eq!(format_ipv6(&[0, 0, 3, 0, 0, 0, 7, 8]), "0:0:3::7:8");
    assert_eq!(format_ipv6(&[0xffff; 8]), "ffff:ffff:ffff:ffff:ffff:ffff:ffff:ffff");
    assert_eq!(format_ipv6(&[0xabc, 0x10, 0xf, 0x1000, 1, 1, 1, 1]), "abc:10:f:1000:1:1:1:1");
}

#[test]
fn ipv6_with_an_ipv4_address() {
    assert_eq!(format_ipv6(&[0, 0, 0, 0, 0, 0xffff, 0x959a, 0xa732]), "::ffff:149.154.167.50");
    assert_eq!(format_ipv6(&[0, 0, 0, 0, 0, 0xffff, 0, 0]), "::ffff:0.0.0.0");
    // only the mapped form ends in dotted decimal notation
    assert_eq!(format_ipv6(&[0, 0, 0, 0, 0, 0, 0x959a, 0xa732]), "::959a:a732");
    assert_eq!(format_ipv6(&[0, 0, 0, 0, 1, 0xffff, 1, 2]), "::1:ffff:1:2");
}

/// The segments between colons; an IPv4 address counts as the last two.
fn segments(text: &str) -> Vec<u16> {
    let mut read = Vec::new();
    for piece in text.split(':').filter(|_| !text.is_empty()) {
        match parse_ipv4(piece) {
            Some(ip) => {
                let n = ip.to_u32();
                read.extend([(n >> 16) as u16, n as u16]);
            }
            None => read.push(u16::from_str_radix(piece, 16).unwrap()),
        }
    }
    read
}

#[test]
fn ipv6_text_reads_back() {
    for bits in 0..=255u16 {
        for value in [1u16, 0xf0, 0xabc, 0xffff] {
            let mut address = [0u16; 8];
            for i in 0..8 {
                if bits & (1 << i) != 0 {
                    address[i] = value;
                }
            }
            let text = format_ipv6(&address);
            let read = match text.split_once("::") {
                Some((head, tail)) => {
                    let (mut head, tail) = (segments(head), segments(tail));
                    head.resize(8 - tail.len(), 0);
                    head.extend(tail);
                    head
                }
                None => segments(&text),
            };
            assert_eq!(read, address, "{}", text);
        }
    }
}

#[test]
fn ipv6_texts_differ() {
    let mut texts = Vec::new();
    for bits in 0..=255u16 {
        for value in [1u16, 0xffff] {
            let mut segments = [0u16; 8];
            for i in 0..8 {
                if bits & (1 << i) != 0 {
                    segments[i] = value;
                }
            }
            if bits != 0 || value == 1 {
                texts.push(format_ipv6(&segments));
            }
        }
    }
    let count = texts.len();
    texts.sort();
    texts.dedup();
    assert_eq!(texts.len(), count);
}

#[test]
fn ipv6_is_no_telegram_address() {
    assert!(!is_telegram_ip(&format_ipv6(&[0, 0, 0, 0, 0, 0xffff, 0x959a, 0xa732])));
    assert!(!is_telegram_ip(&format_ipv6(&[0x2001, 0xb28, 0xf23d, 0xf001, 0, 0, 0, 0xa])));
}

#[test]
fn telegram_blocks_by_their_edges() {
    let edges = [
        ("149.154.159.255", false),
        ("149.154.160.0", true),
        ("149.154.175.255", true),
        ("149.154.176.0", false),
        ("91.108.3.255", false),
        ("91.108.4.0", true),
        ("91.108.7.255", true),
        ("91.108.8.0", true),
        ("91.108.12.0", true),
        ("91.108.16.0", true),
        ("91.108.20.0", true),
        ("91.108.23.255", true),
        ("91.108.24.0", false),
        ("91.108.55.255", false),
        ("91.108.56.0", true),
        ("91.108.59.255", true),
        ("91.108.60.0", false),
        ("185.76.150.255", false),
        ("185.76.151.0", true),
        ("185.76.151.255", true),
        ("185.76.152.0", false),
        ("8.8.8.8", false),
        ("149.154.167.050", false),
        ("telegram.org", false),
        ("", false),
    ];
    for (text, expected) in edges {
        assert_eq!(is_telegram_ip(text), expected, "{}", text);
    }
}

#[test]
fn data_centre_by_address() {
    assert_eq!(dc_from_ip(ip(149, 154, 160, 1)), Some(1));
    assert_eq!(dc_from_ip(ip(149, 154, 163, 1)), Some(1));
    assert_eq!(dc_from_ip(ip(149, 154, 164, 1)), Some(2));
    assert_eq!(dc_from_ip(ip(149, 154, 167, 50)), Some(2));
    assert_eq!(dc_from_ip(ip(149, 154, 168, 1)), Some(3));
    assert_eq!(dc_from_ip(ip(149, 154, 171, 1)), Some(3));
    assert_eq!(dc_from_ip(ip(149, 154, 172, 1)), Some(1));
    assert_eq!(dc_from_ip(ip(149, 154, 175, 1)), Some(1));
    assert_eq!(dc_from_ip(ip(149, 154, 0, 1)), Some(2));
    assert_eq!(dc_from_ip(ip(91, 108, 4, 1)), Some(4));
    assert_eq!(dc_from_ip(ip(91, 108, 8, 1)), Some(3));
    assert_eq!(dc_from_ip(ip(91, 108, 12, 1)), Some(4));
    assert_eq!(dc_from_ip(ip(91, 108, 16, 1)), Some(2));
    assert_eq!(dc_from_ip(ip(91, 108, 20, 1)), Some(2));
    assert_eq!(dc_from_ip(ip(91, 108, 56, 1)), Some(5));
    assert_eq!(dc_from_ip(ip(91, 108, 100, 1)), Some(2));
    assert_eq!(dc_from_ip(ip(185, 76, 151, 1)), Some(2));
    assert_eq!(dc_from_ip(ip(185, 76, 150, 1)), None);
    assert_eq!(dc_from_ip(ip(8, 8, 8, 8)), None);
    assert_eq!(dc_from_host("91.108.56.130"), Some(5));
    assert_eq!(dc_from_host("telegram.org"), None);
    assert_eq!(dc_from_host("8.8.8.8"), None);
}

#[test]
fn every_telegram_address_has_a_data_centre() {
    for c in 0..=255u8 {
        for (a, b) in [(149, 154), (91, 108), (185, 76)] {
            let address = ip(a, b, c, 17);
            if is_telegram_ip(&address.to_text()) {
                assert!(matches!(dc_from_ip(address), Some(1..=5)));
            }
        }
    }
}

#[test]
fn endpoints_of_data_centres() {
    assert_eq!(ws_url(2), "wss://kws2.web.telegram.org/apiws");
    assert_eq!(ws_url(255), "wss://kws255.web.telegram.org/apiws");
    assert_eq!(ws_host(4), "kws4.web.telegram.org");
    assert_eq!(dc_ip(1), "149.154.175.50");
    assert_eq!(dc_ip(2), "149.154.167.220");
    assert_eq!(dc_ip(3), "149.154.174.100");
    assert_eq!(dc_ip(4), "149.154.167.220");
    assert_eq!(dc_ip(5), "91.108.56.190");
    assert_eq!(dc_ip(0), "149.154.167.220");
    assert_eq!(dc_ip(200), "149.154.167.220");
    for dc in 0..=255u8 {
        assert_eq!(ws_url(dc), format!("wss://{}/apiws", ws_host(dc)));
        assert!(is_telegram_ip(dc_ip(dc)));
    }
}
