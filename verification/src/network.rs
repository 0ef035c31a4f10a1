//! Identity of a socket on the local host.

use vstd::prelude::*;

verus! {

/// Transport protocol of a socket.
#[derive(Clone, Copy, Debug, PartialEq, Eq, Hash, Structural)]
pub enum Protocol {
    Tcp,
    Udp,
}

/// An IP address, held as the integer that its octets spell in network order.
#[derive(Clone, Copy, Debug, PartialEq, Eq, Hash, Structural)]
pub enum IpAddress {
    V4(u32),
    V6(u128),
}

/// The integer that the four octets of an IPv4 address spell, the first octet highest.
pub open spec fn v4_bits(a: u8, b: u8, c: u8, d: u8) -> int {
    a * 0x100_0000 + b * 0x1_0000 + c * 0x100 + d
}

/// The integer that the eight groups of an IPv6 address spell, the first group highest.
pub open spec fn v6_bits(a: u16, b: u16, c: u16, d: u16, e: u16, f: u16, g: u16, h: u16) -> int {
    a * 0x1_0000_0000_0000_0000_0000_0000_0000 + b * 0x1_0000_0000_0000_0000_0000_0000 + c
        * 0x1_0000_0000_0000_0000_0000 + d * 0x1_0000_0000_0000_0000 + e * 0x1_0000_0000_0000 + f
        * 0x1_0000_0000 + g * 0x1_0000 + h
}

impl IpAddress {
    /// The IPv4 address `a.b.c.d`.
    pub fn v4(a: u8, b: u8, c: u8, d: u8) -> (ip: IpAddress)
        ensures
            ip == IpAddress::V4(v4_bits(a, b, c, d) as u32),
            v4_bits(a, b, c, d) <= u32::MAX,
    {
        let a: u32 = a as u32;
        let b: u32 = b as u32;
        let c: u32 = c as u32;
        let d: u32 = d as u32;
        IpAddress::V4(a * 0x100_0000 + b * 0x1_0000 + c * 0x100 + d)
    }

    /// The IPv6 address `a:b:c:d:e:f:g:h`.
    pub fn v6(a: u16, b: u16, c: u16, d: u16, e: u16, f: u16, g: u16, h: u16) -> (ip: IpAddress)
        ensures
            ip == IpAddress::V6(v6_bits(a, b, c, d, e, f, g, h) as u128),
            v6_bits(a, b, c, d, e, f, g, h) <= u128::MAX,
    {
        let a: u128 = a as u128;
        let b: u128 = b as u128;
        let c: u128 = c as u128;
        let d: u128 = d as u128;
        let e: u128 = e as u128;
        let f: u128 = f as u128;
        let g: u128 = g as u128;
        let h: u128 = h as u128;
        IpAddress::V6(
            a * 0x1_0000_0000_0000_0000_0000_0000_0000 + b * 0x1_0000_0000_0000_0000_0000_0000 + c
                * 0x1_0000_0000_0000_0000_0000 + d * 0x1_0000_0000_0000_0000 + e
                * 0x1_0000_0000_0000 + f * 0x1_0000_0000 + g * 0x1_0000 + h,
        )
    }
}

/// An IP address together with a port.
#[derive(Clone, Copy, Debug, PartialEq, Eq, Hash, Structural)]
pub struct SocketAddress {
    pub ip: IpAddress,
    pub port: u16,
}

/// The local end of a socket: two sockets are the same exactly when address, port and
/// protocol all agree.
#[derive(Clone, Copy, Debug, PartialEq, Eq, Hash, Structural)]
pub struct LocalSocket {
    pub ip: IpAddress,
    pub port: u16,
    pub protocol: Protocol,
}

} // verus!
