use vstd::prelude::*;

verus! {

/// An IP address: IPv4 as its 32-bit value, IPv6 as its 128-bit value.
#[derive(Debug, Clone, Copy, PartialEq, Eq, Hash, Structural)]
pub enum IpAddress {
    V4(u32),
    V6(u128),
}

/// Whether an address is a loopback address (`IpAddr::is_loopback`): `127.0.0.0/8` for
/// IPv4, `::1` for IPv6.
pub open spec fn is_loopback(ip: IpAddress) -> bool {
    match ip {
        IpAddress::V4(bits) => bits / 0x100_0000 == 127,
        IpAddress::V6(bits) => bits == 1,
    }
}

impl IpAddress {
    pub fn is_loopback(&self) -> (b: bool)
        ensures
            b == is_loopback(*self),
    {
        match self {
            IpAddress::V4(bits) => *bits / 0x100_0000 == 127,
            IpAddress::V6(bits) => *bits == 1,
        }
    }

    pub fn is_ipv4(&self) -> (b: bool)
        ensures
            b == (*self is V4),
    {
        match self {
            IpAddress::V4(_) => true,
            IpAddress::V6(_) => false,
        }
    }
}

/// A socket address: an IP address and a port. IPv6 flow information and scope ids are not
/// carried.
#[derive(Debug, Clone, Copy, PartialEq, Eq, Hash, Structural)]
pub struct SocketEndpoint {
    pub ip: IpAddress,
    pub port: u16,
}

} // verus!
