use mesh_proxy::literal::{parse_ip, parse_socket, parse_socket_or_ip};
use mesh_proxy::net::{IpAddress, SocketAddress};

fn v4(a: u8, b: u8, c: u8, d: u8) -> IpAddress {
    IpAddress::V4(u32::from_be_bytes([a, b, c, d]))
}

fn v6(groups: [u16; 8]) -> IpAddress {
    let mut bits: u128 = 0;
    for group in groups {
        bits = (bits << 16) | u128::from(group);
    }
    IpAddress::V6(bits)
}

fn ip(text: &str) -> Option<IpAddress> {
    parse_ip(text)
}

fn socket(text: &str) -> Option<SocketAddress> {
    parse_socket(text)
}

#[test]
fn dotted_quad_spells_its_octets_in_network_order() {
    assert_eq!(ip("192.0.2.43"), Some(IpAddress::V4(0xc000_022b)));
    assert_eq!(ip("0.0.0.0"), Some(v4(0, 0, 0, 0)));
    assert_eq!(ip("255.255.255.255"), Some(v4(255, 255, 255, 255)));
}

#[test]
fn dotted_quad_needs_four_plain_octets() {
    for text in [
        "", "1.2.3", "1.2.3.4.5", "1.2.3.", ".1.2.3", "1..2.3", "256.0.0.1", "1.2.3.999",
        "1.2.3.1000", "01.2.3.4", "1.02.3.4", "1.2.3.04", "0.00.0.0", "1.2.3.a", "+1.2.3.4",
        "1.2.3.4 ", " 1.2.3.4", "\u{661}.2.3.4",
    ] {
        assert_eq!(ip(text), None, "{:?}", text);
    }
}

#[test]
fn double_colon_stands_for_the_missing_groups() {
    assert_eq!(
        ip("2001:db8:cafe::17"),
        Some(IpAddress::V6(0x2001_0db8_cafe_0000_0000_0000_0000_0017))
    );
    assert_eq!(ip("::"), Some(v6([0; 8])));
    assert_eq!(ip("::1"), Some(v6([0, 0, 0, 0, 0, 0, 0, 1])));
    assert_eq!(ip("1::"), Some(v6([1, 0, 0, 0, 0, 0, 0, 0])));
    assert_eq!(ip("1::1"), Some(v6([1, 0, 0, 0, 0, 0, 0, 1])));
    assert_eq!(ip("1:2:3:4:5:6:7::"), Some(v6([1, 2, 3, 4, 5, 6, 7, 0])));
    assert_eq!(ip("::1:2:3:4:5:6:7"), Some(v6([0, 1, 2, 3, 4, 5, 6, 7])));
    assert_eq!(ip("1:2:3:4::5:6:7"), Some(v6([1, 2, 3, 4, 0, 5, 6, 7])));
}

#[test]
fn eight_groups_need_no_double_colon() {
    assert_eq!(ip("1:2:3:4:5:6:7:8"), Some(v6([1, 2, 3, 4, 5, 6, 7, 8])));
    assert_eq!(
        ip("ffff:FFFF:ffff:ffff:ffff:ffff:ffff:ffff"),
        Some(IpAddress::V6(u128::MAX))
    );
    assert_eq!(ip("2001:DB8:CAFE::17"), ip("2001:db8:cafe::17"));
    assert_eq!(ip("0000::"), Some(v6([0; 8])));
}

#[test]
fn dotted_quad_fills_the_last_two_groups() {
    assert_eq!(ip("::1.2.3.4"), Some(v6([0, 0, 0, 0, 0, 0, 0x0102, 0x0304])));
    assert_eq!(
        ip("::ffff:192.0.2.43"),
        Some(v6([0, 0, 0, 0, 0, 0xffff, 0xc000, 0x022b]))
    );
    assert_eq!(
        ip("1:2:3:4:5:6:1.2.3.4"),
        Some(v6([1, 2, 3, 4, 5, 6, 0x0102, 0x0304]))
    );
    assert_eq!(
        ip("1:2:3:4:5::1.2.3.4"),
        Some(v6([1, 2, 3, 4, 5, 0, 0x0102, 0x0304]))
    );
}

#[test]
fn malformed_groups_spell_no_address() {
    for text in [
        ":", ":::", "::::", "1:::1", "1::2::3", "1:2:3:4:5:6:7", "1:2:3:4:5:6:7:8:9",
        "1:2:3:4:5:6:7:8::", "::1:2:3:4:5:6:7:8", "1:2:3:4::5:6:7:8", "12345::", "00000::", "g::",
        "::g", "1:2:3:4:5:6:7:1.2.3.4", "1:2:3:4:5:1.2.3.4", "::1.2.3.4:5", "1.2.3.4::",
        "::1.2.3.4.5", "::1.2.3", "::01.2.3.4", "1:2:3:4:5:6::1.2.3.4", "::1.2.3.256",
        "fe80::1%3", "[::1]", "1\u{ff1a}2",
    ] {
        assert_eq!(ip(text), None, "{:?}", text);
    }
}

#[test]
fn socket_address_is_an_address_and_a_port() {
    assert_eq!(
        socket("192.0.2.43:80"),
        Some(SocketAddress { ip: v4(192, 0, 2, 43), port: 80 })
    );
    assert_eq!(
        socket("192.0.2.43:0"),
        Some(SocketAddress { ip: v4(192, 0, 2, 43), port: 0 })
    );
    assert_eq!(
        socket("192.0.2.43:65535"),
        Some(SocketAddress { ip: v4(192, 0, 2, 43), port: 65535 })
    );
    assert_eq!(
        socket("192.0.2.43:00080"),
        Some(SocketAddress { ip: v4(192, 0, 2, 43), port: 80 })
    );
    assert_eq!(
        socket("[2001:db8:cafe::17]:443"),
        Some(SocketAddress { ip: v6([0x2001, 0xdb8, 0xcafe, 0, 0, 0, 0, 0x17]), port: 443 })
    );
    assert_eq!(
        socket("[::]:0"),
        Some(SocketAddress { ip: v6([0; 8]), port: 0 })
    );
    assert_eq!(
        socket("[fe80::1%3]:80"),
        Some(SocketAddress { ip: v6([0xfe80, 0, 0, 0, 0, 0, 0, 1]), port: 80 })
    );
    assert_eq!(
        socket("[fe80::1%4294967295]:80"),
        Some(SocketAddress { ip: v6([0xfe80, 0, 0, 0, 0, 0, 0, 1]), port: 80 })
    );
}

#[test]
fn malformed_socket_addresses_spell_none() {
    for text in [
        "", "192.0.2.43", "192.0.2.43:", "192.0.2.43:65536", "192.0.2.43:+80", "192.0.2.43:8a",
        "192.0.2.43:80:80", "192.0.2.43:80\u{e9}", "[192.0.2.43]:80", "2001:db8:cafe::17:80",
        "[2001:db8:cafe::17]", "[2001:db8:cafe::17]:", "[2001:db8:cafe::17]80",
        "[2001:db8:cafe::17]:80x", "[::1]:65536", "[::1", "::1]", "[::1]:80]", "[]:80",
        "[fe80::1%4294967296]:80", "[fe80::1%]:80", "[fe80::1%eth0]:80", "[fe80::1%3%4]:80",
    ] {
        assert_eq!(socket(text), None, "{:?}", text);
    }
}

#[test]
fn brackets_and_port_are_taken_off() {
    assert_eq!(parse_socket_or_ip("192.0.2.43"), Some(v4(192, 0, 2, 43)));
    assert_eq!(parse_socket_or_ip("192.0.2.43:80"), Some(v4(192, 0, 2, 43)));
    assert_eq!(parse_socket_or_ip("[192.0.2.43]"), Some(v4(192, 0, 2, 43)));
    assert_eq!(parse_socket_or_ip("[192.0.2.43:80]"), Some(v4(192, 0, 2, 43)));
    let cafe = v6([0x2001, 0xdb8, 0xcafe, 0, 0, 0, 0, 0x17]);
    assert_eq!(parse_socket_or_ip("2001:db8:cafe::17"), Some(cafe));
    assert_eq!(parse_socket_or_ip("[2001:db8:cafe::17]"), Some(cafe));
    assert_eq!(parse_socket_or_ip("[2001:db8:cafe::17]:80"), Some(cafe));
    assert_eq!(parse_socket_or_ip("[[2001:db8:cafe::17]:80]"), Some(cafe));
    for text in
        ["", "[", "]", "[]", "unknown", "_hidden", "[[2001:db8:cafe::17]]", "[192.0.2.43]:80"]
    {
        assert_eq!(parse_socket_or_ip(text), None, "{:?}", text);
    }
}
