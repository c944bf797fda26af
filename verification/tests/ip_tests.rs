use tantivy_ex::ip::{convert_ip_to_ipv6, ip_text, parse_address, parse_ip, IpAddress};

#[test]
fn reads_ipv4_as_mapped() {
    assert_eq!(parse_ip("192.168.1.1"), Some(0x0000_0000_0000_0000_0000_ffff_c0a8_0101));
    assert_eq!(parse_ip("0.0.0.0"), Some(0x0000_0000_0000_0000_0000_ffff_0000_0000));
    assert_eq!(parse_ip("255.255.255.255"), Some(0x0000_0000_0000_0000_0000_ffff_ffff_ffff));
    assert_eq!(parse_address("10.0.0.1"), Some(IpAddress::V4([10, 0, 0, 1])));
}

#[test]
fn refuses_what_is_no_ipv4() {
    for bad in [
        "", "1.2.3", "1.2.3.4.5", "256.1.1.1", "1.2.3.04", "01.2.3.4", "1..2.3", "1.2.3.", ".1.2.3",
        "a.b.c.d", "1.2.3.4 ", " 1.2.3.4", "1,2,3,4", "1.2.3.-4", "1.2.3.+4", "1.2.3.1000",
    ] {
        assert_eq!(parse_ip(bad), None, "{bad}");
    }
}

#[test]
fn reads_ipv6() {
    assert_eq!(parse_ip("::"), Some(0));
    assert_eq!(parse_ip("::1"), Some(1));
    assert_eq!(parse_ip("1::"), Some(0x0001_0000_0000_0000_0000_0000_0000_0000));
    assert_eq!(parse_ip("2001:db8::1"), Some(0x2001_0db8_0000_0000_0000_0000_0000_0001));
    assert_eq!(parse_ip("2001:DB8::1"), Some(0x2001_0db8_0000_0000_0000_0000_0000_0001));
    assert_eq!(
        parse_ip("1:2:3:4:5:6:7:8"),
        Some(0x0001_0002_0003_0004_0005_0006_0007_0008)
    );
    assert_eq!(
        parse_ip("0001:0002:0003:0004:0005:0006:0007:0008"),
        Some(0x0001_0002_0003_0004_0005_0006_0007_0008)
    );
    assert_eq!(parse_ip("1:2:3:4:5:6:7::"), Some(0x0001_0002_0003_0004_0005_0006_0007_0000));
    assert_eq!(parse_ip("::2:3:4:5:6:7:8"), Some(0x0000_0002_0003_0004_0005_0006_0007_0008));
    assert_eq!(parse_ip("1::8"), Some(0x0001_0000_0000_0000_0000_0000_0000_0008));
    assert_eq!(parse_ip("::ffff:1.2.3.4"), Some(0x0000_0000_0000_0000_0000_ffff_0102_0304));
    assert_eq!(parse_ip("1:2:3:4:5:6:1.2.3.4"), Some(0x0001_0002_0003_0004_0005_0006_0102_0304));
    assert_eq!(parse_ip("64:ff9b::192.0.2.33"), Some(0x0064_ff9b_0000_0000_0000_0000_c000_0221));
    assert_eq!(
        parse_address("::1"),
        Some(IpAddress::V6([0, 0, 0, 0, 0, 0, 0, 1]))
    );
}

#[test]
fn refuses_what_is_no_ipv6() {
    for bad in [
        ":", ":::", "1:2:3:4:5:6:7", "1:2:3:4:5:6:7:8:9", "1:2:3:4:5:6:7:8::", "::1:2:3:4:5:6:7:8",
        "1::2::3", "12345::", "g::", "1:2:3:4:5:6:7:", ":1:2:3:4:5:6:7", "1.2.3.4::", "::1.2.3.4:5",
        "1:2:3:4:5:6:7:1.2.3.4", "::1%eth0", "[::1]", "1:::2", "fe80::1 ", "::1.2.3", "::1.2.3.256",
    ] {
        assert_eq!(parse_ip(bad), None, "{bad}");
    }
}

#[test]
fn mapping_keeps_ipv6_and_maps_ipv4() {
    assert_eq!(
        convert_ip_to_ipv6(IpAddress::V4([127, 0, 0, 1])),
        0x0000_0000_0000_0000_0000_ffff_7f00_0001
    );
    assert_eq!(
        convert_ip_to_ipv6(IpAddress::V6([0x2001, 0xdb8, 0, 0, 0, 0, 0, 1])),
        0x2001_0db8_0000_0000_0000_0000_0000_0001
    );
    assert_eq!(convert_ip_to_ipv6(IpAddress::V6([0xffff; 8])), u128::MAX);
}

#[test]
fn writes_the_canonical_text() {
    assert_eq!(ip_text(0), "::");
    assert_eq!(ip_text(1), "::1");
    assert_eq!(ip_text(0x0000_0000_0000_0000_0000_ffff_c0a8_0101), "::ffff:192.168.1.1");
    assert_eq!(ip_text(0x2001_0db8_0000_0000_0000_0000_0000_0001), "2001:db8::1");
    assert_eq!(ip_text(0x0001_0002_0003_0004_0005_0006_0007_0008), "1:2:3:4:5:6:7:8");
    // The first of two runs of the same length is the one that is shortened.
    assert_eq!(ip_text(0x0001_0000_0000_0002_0000_0000_0000_0003), "1:0:0:2::3");
    assert_eq!(ip_text(0x0001_0000_0000_0002_0003_0000_0000_0004), "1::2:3:0:0:4");
    // A single zero group is written out.
    assert_eq!(ip_text(0x0001_0000_0002_0003_0004_0005_0006_0007), "1:0:2:3:4:5:6:7");
    assert_eq!(ip_text(0x0001_0000_0000_0000_0000_0000_0000_0000), "1::");
    assert_eq!(ip_text(u128::MAX), "ffff:ffff:ffff:ffff:ffff:ffff:ffff:ffff");
    assert_eq!(ip_text(0x0000_0000_0000_0000_0000_0000_0102_0304), "::102:304");
    assert_eq!(ip_text(0x00ab_0000_0000_0000_0000_0000_0000_0cd0), "ab::cd0");
}

#[test]
fn canonical_texts_read_back() {
    for bits in [
        0u128,
        1,
        u128::MAX,
        0x2001_0db8_0000_0000_0000_0000_0000_0001,
        0x0000_0000_0000_0000_0000_ffff_c0a8_0101,
        0x0001_0000_0000_0002_0000_0000_0000_0003,
        0xfe80_0000_0000_0000_0202_b3ff_fe1e_8329,
    ] {
        assert_eq!(parse_ip(&ip_text(bits)), Some(bits));
    }
}
