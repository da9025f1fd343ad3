use mesh_proxy::net::{to_canonical, IpAddress, SocketAddress};

#[test]
fn mapped_address_is_reduced_to_ipv4() {
    let mapped = IpAddress::V6(0x0000_0000_0000_0000_0000_ffff_c000_022b);
    assert_eq!(mapped.to_canonical(), IpAddress::V4(0xc000_022b));
    assert_eq!(IpAddress::V6(0xffff_0000_0000).to_canonical(), IpAddress::V4(0));
    assert_eq!(IpAddress::V6(0xffff_ffff_ffff).to_canonical(), IpAddress::V4(u32::MAX));
}

#[test]
fn other_addresses_are_their_own_canonical_form() {
    for ip in [
        IpAddress::V4(0),
        IpAddress::V4(0xc000_022b),
        IpAddress::V6(0),
        IpAddress::V6(1),
        IpAddress::V6(0xc000_022b),
        IpAddress::V6(0xfffe_c000_022b),
        IpAddress::V6(0x1_ffff_c000_022b),
        IpAddress::V6(0x1_0000_0000_0000_ffff_c000_022b),
        IpAddress::V6(0x2001_0db8_cafe_0000_0000_0000_0000_0017),
        IpAddress::V6(u128::MAX),
    ] {
        assert_eq!(ip.to_canonical(), ip);
    }
}

#[test]
fn canonical_socket_address_keeps_its_port() {
    let mapped = SocketAddress { ip: IpAddress::V6(0xffff_7f00_0001), port: 15008 };
    assert_eq!(
        to_canonical(mapped),
        SocketAddress { ip: IpAddress::V4(0x7f00_0001), port: 15008 }
    );
    let plain = SocketAddress { ip: IpAddress::V4(0x7f00_0001), port: 15001 };
    assert_eq!(to_canonical(plain), plain);
}

#[test]
fn family_is_told_apart() {
    assert!(IpAddress::V4(1).is_ipv4());
    assert!(!IpAddress::V6(1).is_ipv4());
}
