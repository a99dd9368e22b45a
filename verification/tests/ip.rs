use tapo_rest::ip::{parse_ip, IpAddr};

#[test]
fn dotted_decimal() {
    assert_eq!(parse_ip("192.168.1.20"), Some(IpAddr::V4(192, 168, 1, 20)));
    assert_eq!(parse_ip("0.0.0.0"), Some(IpAddr::V4(0, 0, 0, 0)));
    assert_eq!(parse_ip("255.255.255.255"), Some(IpAddr::V4(255, 255, 255, 255)));
}

#[test]
fn not_dotted_decimal() {
    for s in [
        "", " ", ".", "...", "1.2.3", "1.2.3.4.5", "256.1.1.1", "1.1.1.999", "01.2.3.4", "1.2.3.00",
        "1.2.3.4 ", " 1.2.3.4", "1.2.3.-4", "1.2.3.+4", "1..3.4", "1.2.3.4:80", "a.b.c.d", "0x1.2.3.4",
        "1.2.3.1000", "localhost",
    ] {
        assert_eq!(parse_ip(s), None, "{s:?}");
    }
}

#[test]
fn eight_groups() {
    assert_eq!(
        parse_ip("2001:db8:0:1:2:3:4:FFFF"),
        Some(IpAddr::V6(0x2001, 0xdb8, 0, 1, 2, 3, 4, 0xffff))
    );
    assert_eq!(
        parse_ip("1:2:3:4:5:6:1.2.3.4"),
        Some(IpAddr::V6(1, 2, 3, 4, 5, 6, 0x102, 0x304))
    );
    assert_eq!(parse_ip("0001:2:3:4:5:6:7:8"), Some(IpAddr::V6(1, 2, 3, 4, 5, 6, 7, 8)));
}

#[test]
fn zeros_left_out() {
    assert_eq!(parse_ip("::"), Some(IpAddr::V6(0, 0, 0, 0, 0, 0, 0, 0)));
    assert_eq!(parse_ip("::1"), Some(IpAddr::V6(0, 0, 0, 0, 0, 0, 0, 1)));
    assert_eq!(parse_ip("fe80::"), Some(IpAddr::V6(0xfe80, 0, 0, 0, 0, 0, 0, 0)));
    assert_eq!(parse_ip("fe80::aB:c"), Some(IpAddr::V6(0xfe80, 0, 0, 0, 0, 0, 0xab, 0xc)));
    assert_eq!(parse_ip("1:2:3:4:5:6:7::"), Some(IpAddr::V6(1, 2, 3, 4, 5, 6, 7, 0)));
    assert_eq!(parse_ip("::2:3:4:5:6:7:8"), Some(IpAddr::V6(0, 2, 3, 4, 5, 6, 7, 8)));
    assert_eq!(
        parse_ip("::ffff:192.168.0.1"),
        Some(IpAddr::V6(0, 0, 0, 0, 0, 0xffff, 0xc0a8, 1))
    );
    assert_eq!(
        parse_ip("1:2:3:4:5::1.2.3.4"),
        Some(IpAddr::V6(1, 2, 3, 4, 5, 0, 0x102, 0x304))
    );
}

#[test]
fn not_eight_groups() {
    for s in [
        ":", ":::", "::1::", "1::2::3", "1:2:3:4:5:6:7", "1:2:3:4:5:6:7:8:9", "1:2:3:4:5:6:7:8::",
        "1:2:3:4::5:6:7:8", "1:2:3:4:5:6:7:1.2.3.4", "1:2:3:4:5:6::1.2.3.4", "1.2.3.4::", "::1.2.3.4:5",
        "12345::", "g::", "::1%eth0", "[::1]", "::1.2.3", "::256.1.1.1", "1:", ":1",
    ] {
        assert_eq!(parse_ip(s), None, "{s:?}");
    }
}
