//! Addresses as plain values: IP addresses, socket addresses and their
//! canonical form.

use vstd::prelude::*;

verus! {

/// An IP address, held as the integer that its octets spell in network order.
#[derive(Clone, Copy, Debug, PartialEq, Eq, Structural)]
pub enum IpAddress {
    V4(u32),
    V6(u128),
}

/// An IP address together with a port.
#[derive(Clone, Copy, Debug, PartialEq, Eq, Structural)]
pub struct SocketAddress {
    pub ip: IpAddress,
    pub port: u16,
}

/// The prefix `::ffff:0:0/96` shifted down by 32 bits.
pub const V4_MAPPED_PREFIX: u128 = 0xffff;

/// Two to the power 32.
pub const V4_SPAN: u128 = 0x1_0000_0000;

/// The address an IPv4-mapped IPv6 address stands for; every other address
/// is its own canonical form.
pub open spec fn canonical_ip(ip: IpAddress) -> IpAddress {
    match ip {
        IpAddress::V4(_) => ip,
        IpAddress::V6(bits) => if bits / V4_SPAN == V4_MAPPED_PREFIX {
            IpAddress::V4((bits % V4_SPAN) as u32)
        } else {
            ip
        },
    }
}

impl IpAddress {
    pub open spec fn spec_is_ipv4(&self) -> bool {
        *self is V4
    }

    #[verifier::when_used_as_spec(spec_is_ipv4)]
    pub fn is_ipv4(&self) -> (r: bool)
        ensures
            r == (*self is V4),
    {
        match self {
            IpAddress::V4(_) => true,
            IpAddress::V6(_) => false,
        }
    }

    /// Reduces an IPv4-mapped IPv6 address to the IPv4 address it carries.
    pub fn to_canonical(self) -> (r: IpAddress)
        ensures
            r == canonical_ip(self),
    {
        match self {
            IpAddress::V4(_) => self,
            IpAddress::V6(bits) => {
                if bits / V4_SPAN == V4_MAPPED_PREFIX {
                    let low: u128 = bits % V4_SPAN;
                    IpAddress::V4(low as u32)
                } else {
                    self
                }
            },
        }
    }
}

/// The canonical form of a socket address: the canonical form of its IP
/// address, with the same port.
pub open spec fn canonical(addr: SocketAddress) -> SocketAddress {
    SocketAddress { ip: canonical_ip(addr.ip), port: addr.port }
}

/// Reduces the IPv4-mapped IPv6 address of a socket address to the IPv4
/// address it carries.
pub fn to_canonical(addr: SocketAddress) -> (r: SocketAddress)
    ensures
        r == canonical(addr),
{
    SocketAddress { ip: addr.ip.to_canonical(), port: addr.port }
}

} // verus!
