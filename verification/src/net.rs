//! Network addresses as plain values: the library keeps them as numbers so
//! that its logic can compare and copy them; the application converts them
//! to and from `std::net` types.
use vstd::prelude::*;

verus! {

/// An IP address: the four octets of IPv4, or the eight 16-bit segments
/// of IPv6.
#[derive(Clone, Copy, Debug, PartialEq, Eq, Structural)]
pub enum IpAddress {
    V4(u8, u8, u8, u8),
    V6(u16, u16, u16, u16, u16, u16, u16, u16),
}

/// A socket address: an IP address and a port, with the IPv6 flow label
/// and scope id (both zero for IPv4).
#[derive(Clone, Copy, Debug, PartialEq, Eq, Structural)]
pub struct SocketAddress {
    pub ip: IpAddress,
    pub port: u16,
    pub flowinfo: u32,
    pub scope_id: u32,
}

/// The IPv4 address on which a listener accepts every interface, `0.0.0.0`.
pub fn unspecified_v4() -> (r: IpAddress)
    ensures
        r == IpAddress::V4(0u8, 0u8, 0u8, 0u8),
{
    IpAddress::V4(0u8, 0u8, 0u8, 0u8)
}

} // verus!
