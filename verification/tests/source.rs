use mesh_proxy::net::{IpAddress, SocketAddress};
use mesh_proxy::source::{
    check_header_text, check_list_tails, get_original_src_from_fwded,
    get_original_src_from_stream, last_forwarded_source,
};

fn v4(a: u8, b: u8, c: u8, d: u8) -> IpAddress {
    IpAddress::V4(u32::from_be_bytes([a, b, c, d]))
}

fn cafe() -> IpAddress {
    IpAddress::V6(0x2001_0db8_cafe_0000_0000_0000_0000_0017)
}

fn string_match(header: &str, expect: Option<IpAddress>) {
    assert_eq!(get_original_src_from_fwded(Some(header)), expect, "{:?}", header);
}

#[test]
fn string_match_empty() {
    string_match(r#""#, None);
}

#[test]
fn string_match_no_for() {
    string_match(r#"proto=https"#, None);
}

#[test]
fn string_match_malformed() {
    string_match(r#"abc"#, None);
}

#[test]
fn string_match_ipv4() {
    string_match(r#"for=192.0.2.43"#, Some(v4(192, 0, 2, 43)));
}

#[test]
fn string_match_quoted_ipv4() {
    string_match(r#"for="192.0.2.43""#, Some(v4(192, 0, 2, 43)));
}

#[test]
fn string_match_ipv4_port() {
    string_match(r#"for="192.0.2.43:80""#, Some(v4(192, 0, 2, 43)));
}

#[test]
fn string_match_unquoted_ipv4_port() {
    string_match(r#"for=192.0.2.43:80"#, None);
}

#[test]
fn string_match_ipv6() {
    string_match(r#"for="[2001:db8:cafe::17]""#, Some(cafe()));
}

#[test]
fn string_match_unquoted_ipv6() {
    string_match(r#"for=[2001:db8:cafe::17]"#, None);
}

#[test]
fn string_match_ipv6_port() {
    string_match(r#"for="[2001:db8:cafe::17]:80""#, Some(cafe()));
}

#[test]
fn string_match_sections() {
    string_match(r#"for=192.0.2.43;proto=https"#, Some(v4(192, 0, 2, 43)));
}

#[test]
fn string_match_multiple() {
    string_match(
        r#"for=192.0.2.43, for="[2001:db8:cafe::17]";proto=https"#,
        Some(cafe()),
    );
}

#[test]
fn string_match_multiple_unmatched() {
    string_match(
        r#"for=192.0.2.43, for="[2001:db8:cafe::17]", for=unknown;proto=https"#,
        None,
    );
}

#[test]
fn no_header_gives_no_source() {
    assert_eq!(get_original_src_from_fwded(None), None);
}

#[test]
fn last_entry_wins_whatever_comes_first() {
    string_match(r#"for=unknown, for=192.0.2.43"#, Some(v4(192, 0, 2, 43)));
    string_match(r#"by=203.0.113.7;for=198.51.100.1,for=192.0.2.43"#, Some(v4(192, 0, 2, 43)));
    string_match(r#"FOR=192.0.2.43"#, Some(v4(192, 0, 2, 43)));
    string_match("for=198.51.100.1,\t for=192.0.2.43", Some(v4(192, 0, 2, 43)));
}

#[test]
fn list_that_breaks_off_after_a_comma_gives_no_source() {
    for header in [
        "for=192.0.2.43,",
        "for=192.0.2.43, ",
        "for=192.0.2.43,b",
        "for=192.0.2.43,for",
        "for=192.0.2.43, fo",
        "for=192.0.2.43,   \t ",
        r#"for="192.0.2.43",x"#,
        r#"for="a\"b",c"#,
        "for=192.0.2.43;by=a,b",
    ] {
        string_match(header, None);
    }
}

#[test]
fn comma_inside_a_quoted_string_is_no_separator() {
    string_match(r#"for=192.0.2.43;by="a,b""#, Some(v4(192, 0, 2, 43)));
    string_match(r#"for=192.0.2.43;by="a\",b""#, Some(v4(192, 0, 2, 43)));
    string_match(r#"for=192.0.2.43;by="a\\",b"#, None);
}

#[test]
fn header_that_is_no_text_gives_no_source() {
    string_match("for=192.0.2.43;by=\u{e9}t\u{e9}", None);
    string_match("for=192.0.2.43\n", None);
    string_match("for=192.0.2.43\u{7f}", None);
    string_match("ab\u{20ac}", None);
}

#[test]
fn header_text_is_visible_ascii_space_or_tab() {
    let chars = |text: &str| text.chars().collect::<Vec<char>>();
    assert!(check_header_text(&chars("")));
    assert!(check_header_text(&chars("for=192.0.2.43;\tproto=https ~!")));
    assert!(!check_header_text(&chars("a\u{1f}")));
    assert!(!check_header_text(&chars("a\u{7f}")));
    assert!(!check_header_text(&chars("a\u{80}")));
}

#[test]
fn short_tails_are_found_outside_quoted_strings_only() {
    let chars = |text: &str| text.chars().collect::<Vec<char>>();
    assert!(check_list_tails(&chars("")));
    assert!(check_list_tails(&chars("a,bcde")));
    assert!(check_list_tails(&chars("a,  bcde")));
    assert!(!check_list_tails(&chars("a,bcd")));
    assert!(!check_list_tails(&chars("a,   bcd")));
    assert!(!check_list_tails(&chars(",")));
    assert!(check_list_tails(&chars(r#""a,b""#)));
    assert!(check_list_tails(&chars(r#""a\",b""#)));
    assert!(!check_list_tails(&chars(r#""a\\",b""#)));
}

#[test]
fn last_forwarded_source_takes_the_last_address() {
    let list = |items: &[&str]| items.iter().map(|item| item.to_string()).collect::<Vec<_>>();
    assert_eq!(last_forwarded_source(&list(&[])), None);
    assert_eq!(last_forwarded_source(&list(&["192.0.2.43"])), Some(v4(192, 0, 2, 43)));
    assert_eq!(
        last_forwarded_source(&list(&["192.0.2.43", "[2001:db8:cafe::17]"])),
        Some(cafe())
    );
    assert_eq!(last_forwarded_source(&list(&["192.0.2.43", "unknown"])), None);
    assert_eq!(last_forwarded_source(&list(&["unknown", "192.0.2.43:80"])), Some(v4(192, 0, 2, 43)));
}

#[test]
fn peer_address_is_made_canonical() {
    assert_eq!(get_original_src_from_stream(None), None);
    assert_eq!(
        get_original_src_from_stream(Some(SocketAddress { ip: v4(10, 0, 0, 1), port: 4000 })),
        Some(v4(10, 0, 0, 1))
    );
    assert_eq!(
        get_original_src_from_stream(Some(SocketAddress {
            ip: IpAddress::V6(0xffff_0a00_0001),
            port: 4000,
        })),
        Some(v4(10, 0, 0, 1))
    );
    assert_eq!(get_original_src_from_stream(Some(SocketAddress { ip: cafe(), port: 1 })), Some(cafe()));
}
