use fwupdater::addr::{ipv4_to_string, ipv6_to_string, parse_ipv4, parse_ipv6};

#[test]
fn ipv4_text_is_dotted_decimal() {
    assert_eq!(ipv4_to_string(0x01020304), "1.2.3.4");
    assert_eq!(ipv4_to_string(0), "0.0.0.0");
    assert_eq!(ipv4_to_string(u32::MAX), "255.255.255.255");
    assert_eq!(ipv4_to_string(0xC0A8_0A01), "192.168.10.1");
}

#[test]
fn ipv4_parsing_accepts_only_canonical_octets() {
    assert_eq!(parse_ipv4("1.2.3.4"), Some(0x01020304));
    assert_eq!(parse_ipv4("0.0.0.0"), Some(0));
    assert_eq!(parse_ipv4("255.255.255.255"), Some(u32::MAX));
    assert_eq!(parse_ipv4("01.2.3.4"), None);
    assert_eq!(parse_ipv4("256.1.1.1"), None);
    assert_eq!(parse_ipv4("1.2.3"), None);
    assert_eq!(parse_ipv4("1.2.3.4.5"), None);
    assert_eq!(parse_ipv4("1.2.3.4."), None);
    assert_eq!(parse_ipv4(" 1.2.3.4"), None);
    assert_eq!(parse_ipv4("1.2..4"), None);
    assert_eq!(parse_ipv4("1.2.3.1000"), None);
    assert_eq!(parse_ipv4(""), None);
    assert_eq!(parse_ipv4("a.b.c.d"), None);
}

fn segs(g: [u16; 8]) -> u128 {
    g.iter().fold(0u128, |acc, &s| (acc << 16) | s as u128)
}

#[test]
fn ipv6_text_compresses_the_leftmost_longest_zero_run() {
    assert_eq!(ipv6_to_string(0), "::");
    assert_eq!(ipv6_to_string(1), "::1");
    assert_eq!(ipv6_to_string(segs([1, 0, 0, 0, 0, 0, 0, 0])), "1::");
    assert_eq!(ipv6_to_string(segs([1, 0, 0, 1, 0, 0, 1, 1])), "1::1:0:0:1:1");
    assert_eq!(ipv6_to_string(segs([0, 0, 1, 0, 0, 0, 1, 0])), "0:0:1::1:0");
    assert_eq!(ipv6_to_string(segs([1, 0, 2, 3, 4, 5, 6, 7])), "1:0:2:3:4:5:6:7");
    assert_eq!(
        ipv6_to_string(segs([0x2607, 0xfb91, 0x4b0c, 0xc2d4, 0, 0, 0, 1])),
        "2607:fb91:4b0c:c2d4::1"
    );
    assert_eq!(ipv6_to_string(u128::MAX), "ffff:ffff:ffff:ffff:ffff:ffff:ffff:ffff");
}

#[test]
fn ipv6_text_of_mapped_addresses_embeds_ipv4() {
    assert_eq!(ipv6_to_string(segs([0, 0, 0, 0, 0, 0xffff, 0x0102, 0x0304])), "::ffff:1.2.3.4");
    // IPv4-compatible addresses are plain hex.
    assert_eq!(ipv6_to_string(segs([0, 0, 0, 0, 0, 0, 0x0102, 0x0304])), "::102:304");
}

#[test]
fn ipv6_parsing_accepts_every_text_form() {
    assert_eq!(parse_ipv6("::"), Some(0));
    assert_eq!(parse_ipv6("::1"), Some(1));
    assert_eq!(parse_ipv6("1::"), Some(segs([1, 0, 0, 0, 0, 0, 0, 0])));
    assert_eq!(parse_ipv6("1:2:3:4:5:6:7:8"), Some(segs([1, 2, 3, 4, 5, 6, 7, 8])));
    assert_eq!(parse_ipv6("1:2:3:4:5:6:7::"), Some(segs([1, 2, 3, 4, 5, 6, 7, 0])));
    assert_eq!(parse_ipv6("::2:3:4:5:6:7:8"), Some(segs([0, 2, 3, 4, 5, 6, 7, 8])));
    assert_eq!(parse_ipv6("ABCD:00ef::0001"), Some(segs([0xabcd, 0xef, 0, 0, 0, 0, 0, 1])));
    assert_eq!(parse_ipv6("::ffff:1.2.3.4"), Some(segs([0, 0, 0, 0, 0, 0xffff, 0x0102, 0x0304])));
    assert_eq!(parse_ipv6("1:2:3:4:5:6:1.2.3.4"), Some(segs([1, 2, 3, 4, 5, 6, 0x0102, 0x0304])));
    assert_eq!(parse_ipv6("2607:fb91:4b0c:c2d4::1"), Some(segs([0x2607, 0xfb91, 0x4b0c, 0xc2d4, 0, 0, 0, 1])));
}

#[test]
fn ipv6_parsing_rejects_malformed_text() {
    for bad in [
        "",
        ":",
        ":::",
        "1:::2",
        ":1::",
        "1::2::3",
        "1:2:3:4:5:6:7",
        "1:2:3:4:5:6:7:8:9",
        "1:2:3:4:5:6:7:8::",
        "1:2:3:4:5:6:7::8",
        "12345::",
        "1.2.3.4::",
        "::1.2.3",
        "::ffff:1.2.3.256",
        "1:2:3:4:5:6::1.2.3.4",
        "1:2:3:4:5:6:7:1.2.3.4",
        "g::",
        " ::1",
        "1:2:3:4:5:6:7:8:",
    ] {
        assert_eq!(parse_ipv6(bad), None, "{bad:?}");
    }
}

#[test]
fn text_forms_read_back_as_the_same_address() {
    for a in [0u128, 1, 0xffff_0102_0304, u128::MAX, segs([1, 0, 0, 1, 0, 0, 1, 1]), segs([0x2001, 0xdb8, 0, 0, 8, 0x800, 0x200c, 0x417a])] {
        assert_eq!(parse_ipv6(&ipv6_to_string(a)), Some(a));
    }
    for a in [0u32, 1, 0x7f00_0001, u32::MAX, 0x0a00_00ff] {
        assert_eq!(parse_ipv4(&ipv4_to_string(a)), Some(a));
    }
}
