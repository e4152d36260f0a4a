use testcontainers::{parse_ip, IpAddress};

fn v4(a: u8, b: u8, c: u8, d: u8) -> Option<IpAddress> {
    Some(IpAddress::V4([a, b, c, d]))
}

fn v6(segments: [u16; 8]) -> Option<IpAddress> {
    Some(IpAddress::V6(segments))
}

#[test]
fn reads_dotted_addresses() {
    assert_eq!(parse_ip("0.0.0.0"), v4(0, 0, 0, 0));
    assert_eq!(parse_ip("127.0.0.1"), v4(127, 0, 0, 1));
    assert_eq!(parse_ip("172.17.0.2"), v4(172, 17, 0, 2));
    assert_eq!(parse_ip("255.255.255.255"), v4(255, 255, 255, 255));
    assert_eq!(parse_ip("1.20.103.9"), v4(1, 20, 103, 9));
}

#[test]
fn rejects_what_is_no_dotted_address() {
    for text in [
        "", ".", "...", "1", "1.2.3", "1.2.3.4.5", "1.2.3.", ".1.2.3", "1..2.3", "256.1.1.1",
        "1.2.3.256", "01.2.3.4", "1.2.3.04", "1.2.3.0004", "1.2.3.4 ", " 1.2.3.4", "1.2.3.a",
        "1.2.3.-4", "+1.2.3.4", "1,2,3,4", "localhost", "1.2.3.4/24", "1.2.3.4:80",
    ] {
        assert_eq!(parse_ip(text), None, "{text:?}");
    }
}

#[test]
fn reads_grouped_addresses() {
    assert_eq!(parse_ip("::"), v6([0; 8]));
    assert_eq!(parse_ip("::1"), v6([0, 0, 0, 0, 0, 0, 0, 1]));
    assert_eq!(parse_ip("1::"), v6([1, 0, 0, 0, 0, 0, 0, 0]));
    assert_eq!(parse_ip("1:2:3:4:5:6:7:8"), v6([1, 2, 3, 4, 5, 6, 7, 8]));
    assert_eq!(parse_ip("fe80::1ff:FE23:4567:890a"), v6([0xfe80, 0, 0, 0, 0x1ff, 0xfe23, 0x4567, 0x890a]));
    assert_eq!(parse_ip("2001:db8::"), v6([0x2001, 0xdb8, 0, 0, 0, 0, 0, 0]));
    assert_eq!(parse_ip("1:2:3:4:5:6:7::"), v6([1, 2, 3, 4, 5, 6, 7, 0]));
    assert_eq!(parse_ip("::2:3:4:5:6:7:8"), v6([0, 2, 3, 4, 5, 6, 7, 8]));
    assert_eq!(parse_ip("0001:0002::0008"), v6([1, 2, 0, 0, 0, 0, 0, 8]));
    assert_eq!(parse_ip("ffff:ffff:ffff:ffff:ffff:ffff:ffff:ffff"), v6([0xffff; 8]));
}

#[test]
fn reads_grouped_addresses_with_a_dotted_end() {
    assert_eq!(parse_ip("::ffff:1.2.3.4"), v6([0, 0, 0, 0, 0, 0xffff, 0x0102, 0x0304]));
    assert_eq!(parse_ip("::1.2.3.4"), v6([0, 0, 0, 0, 0, 0, 0x0102, 0x0304]));
    assert_eq!(parse_ip("1:2:3:4:5:6:255.254.0.1"), v6([1, 2, 3, 4, 5, 6, 0xfffe, 0x0001]));
    assert_eq!(parse_ip("64:ff9b::192.0.2.33"), v6([0x64, 0xff9b, 0, 0, 0, 0, 0xc000, 0x0221]));
    assert_eq!(parse_ip("1:2:3:4:5::1.2.3.4"), v6([1, 2, 3, 4, 5, 0, 0x0102, 0x0304]));
}

#[test]
fn rejects_what_is_no_grouped_address() {
    for text in [
        ":", ":::", "::::", "1:", ":1", "1:2:3:4:5:6:7", "1:2:3:4:5:6:7:8:9", "1:2:3:4:5:6:7:8::",
        "::1:2:3:4:5:6:7:8", "1:2:3:4::5:6:7:8", "1::2::3", "12345::", "::12345", "g::", "::g",
        "1:2:3:4:5:6:7:1.2.3.4", "1.2.3.4::", "1.2.3.4:1:2:3:4:5:6", "::1.2.3.4:5", "::1.2.3",
        "::01.2.3.4", "1:2:3:4:5:6::1.2.3.4", "fe80::1%eth0", "[::1]", "::1 ", " ::1", "1:::2",
        "::1:", ":1::", "1:2:3:4:5:6:7:", ":2:3:4:5:6:7:8",
    ] {
        assert_eq!(parse_ip(text), None, "{text:?}");
    }
}

#[test]
fn tells_full_lists_from_short_and_long_ones() {
    assert_eq!(parse_ip("1:2:3:4:5:6::8"), v6([1, 2, 3, 4, 5, 6, 0, 8]));
    assert_eq!(parse_ip("::1:2:3:4:5:6:7"), v6([0, 1, 2, 3, 4, 5, 6, 7]));
    assert_eq!(parse_ip("::1:2:3:4:5:1.2.3.4"), v6([0, 1, 2, 3, 4, 5, 0x0102, 0x0304]));
    assert_eq!(parse_ip("::1:2:3:4:5:6:1.2.3.4"), None);
    assert_eq!(parse_ip("1:2:3:4:5:6:7:1.2.3.4"), None);
    assert_eq!(parse_ip("1:2:3:4:5:1.2.3.4"), None);
}

#[test]
fn every_dotted_address_of_a_sample_is_read_back() {
    for a in [0u8, 1, 9, 10, 99, 100, 199, 255] {
        for d in 0..=255u8 {
            let text = format!("{a}.{d}.{}.{a}", 255 - d);
            assert_eq!(parse_ip(&text), v4(a, d, 255 - d, a), "{text:?}");
        }
    }
}

#[test]
fn every_segment_of_a_sample_is_read_back() {
    for value in (0..=0xffffu16).step_by(13) {
        let text = format!("{value:x}::{value:04X}:{value:x}");
        assert_eq!(parse_ip(&text), v6([value, 0, 0, 0, 0, 0, value, value]), "{text:?}");
    }
}
