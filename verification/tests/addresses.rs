use tinyvpn::net::{
    format_ipv4, format_ipv6, parse_ip, parse_ipv4, parse_ipv6, read_octet, IpAddress,
};

fn chars(s: &str) -> Vec<char> {
    s.chars().collect()
}

fn v4(s: &str) -> Option<u32> {
    parse_ipv4(&chars(s))
}

fn v6(s: &str) -> Option<u128> {
    parse_ipv6(&chars(s))
}

#[test]
fn octets_have_no_leading_zeros_and_end_at_255() {
    let octet = |s: &str| read_octet(&chars(s));
    assert_eq!(octet("0"), Some(0));
    assert_eq!(octet("9"), Some(9));
    assert_eq!(octet("10"), Some(10));
    assert_eq!(octet("255"), Some(255));
    for bad in ["", "00", "01", "256", "999", "1000", "+1", "-1", " 1", "a", "1a", "\u{0661}"] {
        assert_eq!(octet(bad), None, "{bad:?}");
    }
}

#[test]
fn dotted_quads_are_read() {
    assert_eq!(v4("0.0.0.0"), Some(0));
    assert_eq!(v4("255.255.255.255"), Some(0xFFFF_FFFF));
    assert_eq!(v4("10.13.13.2"), Some(0x0A0D_0D02));
    for bad in [
        "", "1.2.3", "1.2.3.4.5", "1.2.3.", ".1.2.3", "1..2.3", "01.2.3.4", "256.1.1.1",
        "1.2.3.4 ", "not.an.ip", "1,2,3,4",
    ] {
        assert_eq!(v4(bad), None, "{bad:?}");
        assert_eq!(parse_ip(&chars(bad)), None, "{bad:?}");
    }
}

#[test]
fn dotted_quads_are_written_and_read_back() {
    for (ip, text) in [
        (0u32, "0.0.0.0"),
        (0x0A0D_0D02, "10.13.13.2"),
        (0xC0A8_8901, "192.168.137.1"),
        (0xFFFF_FFFF, "255.255.255.255"),
    ] {
        assert_eq!(format_ipv4(ip), text);
        assert_eq!(IpAddress::V4(ip).format(), text);
        assert_eq!(v4(text), Some(ip));
        assert_eq!(parse_ip(&chars(text)), Some(IpAddress::V4(ip)));
    }
}

#[test]
fn ipv6_addresses_are_read() {
    for (text, ip) in [
        ("::", 0u128),
        ("::1", 1),
        ("1::", 1 << 112),
        ("2606:4700:4700::1111", 0x2606_4700_4700_0000_0000_0000_0000_1111),
        ("1:2:3:4:5:6:7:8", 0x0001_0002_0003_0004_0005_0006_0007_0008),
        ("0001:0002:0003:0004:0005:0006:0007:0008", 0x0001_0002_0003_0004_0005_0006_0007_0008),
        ("1::8", (1 << 112) | 8),
        ("1:2:3:4:5:6:7::", 0x0001_0002_0003_0004_0005_0006_0007_0000),
        ("::2:3:4:5:6:7:8", 0x0000_0002_0003_0004_0005_0006_0007_0008),
        ("FE80::aBcD", 0xFE80_0000_0000_0000_0000_0000_0000_ABCD),
        ("::ffff:192.0.2.1", 0xFFFF_C000_0201),
        ("::192.0.2.1", 0xC000_0201),
        ("1:2:3:4:5:6:1.2.3.4", 0x0001_0002_0003_0004_0005_0006_0102_0304),
        ("64:ff9b::1.2.3.4", 0x0064_FF9B_0000_0000_0000_0000_0102_0304),
    ] {
        assert_eq!(v6(text), Some(ip), "{text}");
        assert_eq!(parse_ip(&chars(text)), Some(IpAddress::V6(ip)), "{text}");
    }
}

#[test]
fn malformed_ipv6_addresses_are_refused() {
    for bad in [
        "", ":", ":::", "1", "1:2:3:4:5:6:7", "1:2:3:4:5:6:7:8:9", "1:2:3:4:5:6:7:8::",
        "::1:2:3:4:5:6:7:8", "1::2::3", "12345::", "g::", ":1", "1:", ":1::", "::1:", "1:::2",
        "1.2.3.4::", "::1.2.3", "::1.2.3.4:5", "1:2:3:4:5:6:7:1.2.3.4", "fe80::1%eth0", "[::1]",
        "::+1", " ::1",
    ] {
        assert_eq!(v6(bad), None, "{bad:?}");
    }
}

#[test]
fn ipv6_addresses_are_written_in_short_form() {
    for (ip, text) in [
        (0u128, "::"),
        (1, "::1"),
        (1 << 112, "1::"),
        (0x2606_4700_4700_0000_0000_0000_0000_1111, "2606:4700:4700::1111"),
        (0x0001_0002_0003_0004_0005_0006_0007_0008, "1:2:3:4:5:6:7:8"),
        // A single zero group is written out.
        (0x0001_0000_0003_0004_0005_0006_0007_0008, "1:0:3:4:5:6:7:8"),
        // The longest run of zero groups is left out, the first of equal ones.
        (0x0001_0000_0000_0004_0000_0000_0000_0008, "1:0:0:4::8"),
        (0x0001_0000_0000_0004_0005_0000_0000_0008, "1::4:5:0:0:8"),
        (0xFE80_0000_0000_0000_0000_0000_0000_ABCD, "fe80::abcd"),
        (0xFFFF_C000_0201, "::ffff:192.0.2.1"),
        (0xFFFF_FFFF_FFFF_FFFF_FFFF_FFFF_FFFF_FFFF, "ffff:ffff:ffff:ffff:ffff:ffff:ffff:ffff"),
    ] {
        assert_eq!(format_ipv6(ip), text);
        assert_eq!(IpAddress::V6(ip).format(), text);
        assert_eq!(v6(text), Some(ip));
    }
}
