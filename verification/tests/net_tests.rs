use l2portal::net::{format_ipv4, parse_ipv4, parse_socket_addr, prefix_to_mask, Endpoint, Ipv4, ParsedAddr};
use l2portal::text::{decimal, parse_unsigned};

fn ip(a: u8, b: u8, c: u8, d: u8) -> Ipv4 {
    Ipv4::new(a, b, c, d)
}

#[test]
fn ipv4_parses_dotted_decimal() {
    assert_eq!(parse_ipv4("192.168.10.50"), Some(ip(192, 168, 10, 50)));
    assert_eq!(parse_ipv4("0.0.0.0"), Some(ip(0, 0, 0, 0)));
    assert_eq!(parse_ipv4("255.255.255.255"), Some(ip(255, 255, 255, 255)));
}

#[test]
fn ipv4_rejects_malformed_text() {
    for bad in [
        "", "1.2.3", "1.2.3.4.5", "256.1.1.1", "01.2.3.4", "1.2.3.04", "1..2.3", " 1.2.3.4",
        "1.2.3.4 ", "1.2.3.-4", "1.2.3.a", "1.2.3.4:80", "1000.1.1.1", "+1.2.3.4",
    ] {
        assert_eq!(parse_ipv4(bad), None, "{bad:?}");
    }
}

#[test]
fn ipv4_text_round_trip() {
    for a in [ip(0, 0, 0, 0), ip(10, 0, 0, 1), ip(203, 0, 113, 10), ip(255, 9, 99, 100)] {
        let t = format_ipv4(a);
        assert_eq!(parse_ipv4(&t), Some(a));
    }
    assert_eq!(format_ipv4(ip(10, 0, 0, 1)), "10.0.0.1");
    assert_eq!(format_ipv4(ip(192, 168, 100, 9)), "192.168.100.9");
}

#[test]
fn ipv4_bits() {
    let a = ip(192, 168, 1, 2);
    assert_eq!(a.to_bits(), 0xc0a8_0102);
    assert_eq!(Ipv4::from_bits(0xc0a8_0102), a);
    assert!(Ipv4::unspecified().is_unspecified());
    assert!(!a.is_unspecified());
}

#[test]
fn socket_addr_v4_forms() {
    let ep = Endpoint { ip: ip(0, 0, 0, 0), port: 4789 };
    assert_eq!(parse_socket_addr("0.0.0.0:4789", false), Some(ParsedAddr::V4(ep)));
    let lead = Endpoint { ip: ip(1, 2, 3, 4), port: 80 };
    assert_eq!(parse_socket_addr("1.2.3.4:0080", false), Some(ParsedAddr::V4(lead)));
    let max = Endpoint { ip: ip(1, 2, 3, 4), port: 65535 };
    assert_eq!(parse_socket_addr("1.2.3.4:65535", false), Some(ParsedAddr::V4(max)));
}

#[test]
fn socket_addr_rejects_bad_v4() {
    for bad in ["1.2.3.4:65536", "1.2.3.4", "1.2.3.4:", ":80", "1.2.3.4:8a", "1.2.3.4:+80", "x:80"] {
        assert_eq!(parse_socket_addr(bad, false), None, "{bad:?}");
    }
}

#[test]
fn socket_addr_v6_is_classified() {
    assert_eq!(parse_socket_addr("[::1]:80", true), Some(ParsedAddr::V6));
    assert_eq!(parse_socket_addr("[::1]:80", false), None);
}

#[test]
fn prefix_masks() {
    assert_eq!(prefix_to_mask(0), ip(0, 0, 0, 0));
    assert_eq!(prefix_to_mask(1), ip(128, 0, 0, 0));
    assert_eq!(prefix_to_mask(8), ip(255, 0, 0, 0));
    assert_eq!(prefix_to_mask(24), ip(255, 255, 255, 0));
    assert_eq!(prefix_to_mask(25), ip(255, 255, 255, 128));
    assert_eq!(prefix_to_mask(32), ip(255, 255, 255, 255));
    assert_eq!(l2portal::routing::prefix_to_mask(16), ip(255, 255, 0, 0));
}

#[test]
fn mask_has_contiguous_leading_ones() {
    for p in 0u8..=32 {
        let bits = prefix_to_mask(p).to_bits();
        assert_eq!(bits.leading_ones(), p as u32);
        assert_eq!(bits.count_ones(), p as u32);
    }
}

#[test]
fn unsigned_parsing_follows_std() {
    let v: Vec<char> = "+24".chars().collect();
    assert_eq!(parse_unsigned(&v, 0, v.len(), 255), Some(24));
    let v: Vec<char> = "0024".chars().collect();
    assert_eq!(parse_unsigned(&v, 0, v.len(), 255), Some(24));
    for bad in ["", "+", "-1", "256", "2 4", "++1"] {
        let v: Vec<char> = bad.chars().collect();
        assert_eq!(parse_unsigned(&v, 0, v.len(), 255), None, "{bad:?}");
        assert_eq!(bad.parse::<u8>().ok().map(|x| x as u32), None);
    }
    let v: Vec<char> = "4294967295".chars().collect();
    assert_eq!(parse_unsigned(&v, 0, v.len(), u32::MAX), Some(u32::MAX));
    let v: Vec<char> = "4294967296".chars().collect();
    assert_eq!(parse_unsigned(&v, 0, v.len(), u32::MAX), None);
}

#[test]
fn decimal_rendering() {
    assert_eq!(decimal(0), "0");
    assert_eq!(decimal(7), "7");
    assert_eq!(decimal(4789), "4789");
    assert_eq!(decimal(u32::MAX), "4294967295");
}

#[test]
fn ipv4_parsing_matches_std_edge_cases() {
    // Each text with what `Ipv4Addr::from_str` gives for it.
    let cases: [(&str, Option<Ipv4>); 22] = [
        ("0.0.0.0", Some(ip(0, 0, 0, 0))),
        ("1.2.3.4", Some(ip(1, 2, 3, 4))),
        ("255.255.255.255", Some(ip(255, 255, 255, 255))),
        ("1.2.3.255", Some(ip(1, 2, 3, 255))),
        ("256.0.0.0", None),
        ("01.2.3.4", None),
        ("0.0.0.00", None),
        ("001.2.3.4", None),
        ("1.2.3", None),
        ("1.2.3.4.5", None),
        ("1..2.3", None),
        ("+1.2.3.4", None),
        ("1.2.3.4 ", None),
        (" 1.2.3.4", None),
        ("1.2.3.-4", None),
        ("1.2.3.a", None),
        ("0x1.2.3.4", None),
        ("1.2.3.4:80", None),
        ("1.2.3.2555", None),
        ("", None),
        ("....", None),
        ("1.2.3.4\n", None),
    ];
    for (t, expected) in cases {
        assert_eq!(parse_ipv4(t), expected, "{t:?}");
    }
}

#[test]
fn socket_addr_parsing_matches_std_edge_cases() {
    // Each text, whether `SocketAddrV6::from_str` accepts it, and what
    // `SocketAddr::from_str` gives for it.
    let v4 = |a: u8, b: u8, c: u8, d: u8, port: u16| Some(ParsedAddr::V4(Endpoint { ip: ip(a, b, c, d), port }));
    let cases: [(&str, bool, Option<ParsedAddr>); 19] = [
        ("0.0.0.0:4789", false, v4(0, 0, 0, 0, 4789)),
        ("1.2.3.4:0", false, v4(1, 2, 3, 4, 0)),
        ("1.2.3.4:65535", false, v4(1, 2, 3, 4, 65535)),
        ("1.2.3.4:0080", false, v4(1, 2, 3, 4, 80)),
        ("1.2.3.4:65536", false, None),
        ("1.2.3.4:+80", false, None),
        ("1.2.3.4:", false, None),
        (":80", false, None),
        ("1.2.3.4", false, None),
        ("01.2.3.4:80", false, None),
        ("1.2.3.4:80:80", false, None),
        ("1.2.3.4 :80", false, None),
        ("1.2.3.4: 80", false, None),
        ("[::1]:80", true, Some(ParsedAddr::V6)),
        ("[::ffff:1.2.3.4]:80", true, Some(ParsedAddr::V6)),
        ("::1:80", false, None),
        ("[1.2.3.4]:80", false, None),
        ("localhost:80", false, None),
        ("", false, None),
    ];
    for (t, is_v6, expected) in cases {
        assert_eq!(parse_socket_addr(t, is_v6), expected, "{t:?}");
    }
}
