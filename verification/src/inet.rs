//! Endpoints on the physical network: an address, a port and the order in
//! which endpoints are kept.

use vstd::prelude::*;

verus! {

/// The address family of an endpoint.
#[derive(Clone, Copy, Debug, PartialEq, Eq, Structural, PartialOrd, Ord, Hash)]
pub enum InetAddressFamily {
    Nil,
    IPv4,
    IPv6,
}

/// How far an address reaches, as the engine classifies it.
#[derive(Clone, Copy, Debug, PartialEq, Eq, Structural, Hash)]
pub enum IpScope {
    Unspecified,
    Multicast,
    Loopback,
    PseudoPrivate,
    Global,
    LinkLocal,
    Shared,
    Private,
}

impl IpScope {
    /// The number that the engine uses for this scope.
    pub open spec fn code(self) -> int {
        match self {
            IpScope::Unspecified => 0,
            IpScope::Multicast => 1,
            IpScope::Loopback => 2,
            IpScope::PseudoPrivate => 3,
            IpScope::Global => 4,
            IpScope::LinkLocal => 5,
            IpScope::Shared => 6,
            IpScope::Private => 7,
        }
    }

    /// Decodes the engine's number for a scope. A number that no scope has
    /// stands for an address that is not classified.
    pub fn from_i32(code: i32) -> (scope: IpScope)
        ensures
            0 <= code <= 7 ==> scope.code() == code,
            !(0 <= code <= 7) ==> scope == IpScope::Unspecified,
    {
        if code == 1 {
            IpScope::Multicast
        } else if code == 2 {
            IpScope::Loopback
        } else if code == 3 {
            IpScope::PseudoPrivate
        } else if code == 4 {
            IpScope::Global
        } else if code == 5 {
            IpScope::LinkLocal
        } else if code == 6 {
            IpScope::Shared
        } else if code == 7 {
            IpScope::Private
        } else {
            IpScope::Unspecified
        }
    }

    /// Whether an interface address of this scope is worth listening on:
    /// global, private, pseudo-private and shared addresses are; link-local,
    /// loopback, multicast and unclassified addresses are not.
    pub open spec fn permits_binding_spec(self) -> bool {
        self == IpScope::Global || self == IpScope::Private || self == IpScope::PseudoPrivate
            || self == IpScope::Shared
    }

    /// Whether an interface address of this scope is worth listening on.
    #[verifier::when_used_as_spec(permits_binding_spec)]
    pub fn permits_binding(self) -> (usable: bool)
        ensures
            usable == self.permits_binding_spec(),
    {
        match self {
            IpScope::Global => true,
            IpScope::Private => true,
            IpScope::PseudoPrivate => true,
            IpScope::Shared => true,
            _ => false,
        }
    }
}

impl InetAddressFamily {
    /// Decodes the platform's number for an address family. The numbers for
    /// the two families differ between platforms, so the caller supplies
    /// them. Any other number is no family that the host handles.
    pub fn from_platform(code: i32, af_inet: i32, af_inet6: i32) -> (family: Option<
        InetAddressFamily,
    >)
        ensures
            code == af_inet ==> family == Some(InetAddressFamily::IPv4),
            code != af_inet && code == af_inet6 ==> family == Some(InetAddressFamily::IPv6),
            code != af_inet && code != af_inet6 ==> family is None,
    {
        if code == af_inet {
            Some(InetAddressFamily::IPv4)
        } else if code == af_inet6 {
            Some(InetAddressFamily::IPv6)
        } else {
            None
        }
    }

    /// The position of the family in the order of endpoints.
    pub open spec fn rank(self) -> int {
        match self {
            InetAddressFamily::Nil => 0,
            InetAddressFamily::IPv4 => 1,
            InetAddressFamily::IPv6 => 2,
        }
    }
}

/// An endpoint on the physical network. The address is held as the number
/// that its octets spell in network order, so that comparing numbers
/// compares octets.
#[derive(Clone, Copy, Debug, PartialEq, Eq, Structural, PartialOrd, Ord, Hash)]
#[allow(inconsistent_fields)]
pub enum InetAddress {
    Nil,
    V4 { port: u16, ip: u32 },
    V6 { port: u16, ip: u128 },
}

/// The number that four octets spell, first octet highest.
pub open spec fn ipv4_value(o: Seq<u8>) -> int
    recommends
        o.len() == 4,
{
    o[0] as int * 0x100_0000 + o[1] as int * 0x1_0000 + o[2] as int * 0x100 + o[3] as int
}

/// The number that the eight octets from `start` on spell, first octet highest.
pub open spec fn octets8_value(o: Seq<u8>, start: int) -> int
    recommends
        0 <= start,
        start + 8 <= o.len(),
{
    o[start] as int * 0x100_0000_0000_0000 + o[start + 1] as int * 0x1_0000_0000_0000 + o[start
        + 2] as int * 0x100_0000_0000 + o[start + 3] as int * 0x1_0000_0000 + o[start + 4] as int
        * 0x100_0000 + o[start + 5] as int * 0x1_0000 + o[start + 6] as int * 0x100 + o[start
        + 7] as int
}

/// The number that sixteen octets spell, first octet highest.
pub open spec fn ipv6_value(o: Seq<u8>) -> int
    recommends
        o.len() == 16,
{
    octets8_value(o, 0) * 0x1_0000_0000_0000_0000 + octets8_value(o, 8)
}

impl InetAddress {
    /// The family of the endpoint.
    pub open spec fn family_spec(&self) -> InetAddressFamily {
        match *self {
            InetAddress::Nil => InetAddressFamily::Nil,
            InetAddress::V4 { .. } => InetAddressFamily::IPv4,
            InetAddress::V6 { .. } => InetAddressFamily::IPv6,
        }
    }

    /// The port of the endpoint; an endpoint without an address has port zero.
    pub open spec fn port_spec(&self) -> u16 {
        match *self {
            InetAddress::Nil => 0,
            InetAddress::V4 { port, .. } => port,
            InetAddress::V6 { port, .. } => port,
        }
    }

    /// The address of the endpoint as a number.
    pub open spec fn ip_spec(self) -> int {
        match self {
            InetAddress::Nil => 0,
            InetAddress::V4 { ip, .. } => ip as int,
            InetAddress::V6 { ip, .. } => ip as int,
        }
    }

    /// The same address with another port. An endpoint without an address
    /// stays as it is.
    pub open spec fn with_port_spec(&self, port: u16) -> InetAddress {
        match *self {
            InetAddress::Nil => InetAddress::Nil,
            InetAddress::V4 { ip, .. } => InetAddress::V4 { port, ip },
            InetAddress::V6 { ip, .. } => InetAddress::V6 { port, ip },
        }
    }

    /// The order of endpoints: by family, then by port, then by address.
    /// This is the order of the octets of a socket address, in which the
    /// family comes first, the port second and the address last.
    pub open spec fn comes_before(self, other: InetAddress) -> bool {
        let (family, other_family) = (self.family_spec().rank(), other.family_spec().rank());
        let (port, other_port) = (self.port_spec() as int, other.port_spec() as int);
        family < other_family || (family == other_family && (port < other_port || (port
            == other_port && self.ip_spec() < other.ip_spec())))
    }

    /// An endpoint without an address.
    pub fn new() -> (a: InetAddress)
        ensures
            a == InetAddress::Nil,
    {
        InetAddress::Nil
    }

    /// The IPv4 endpoint with the given octets, in network order, and port.
    pub fn from_ipv4(octets: &[u8; 4], port: u16) -> (a: InetAddress)
        ensures
            a matches InetAddress::V4 { port: p, ip } && p == port && ip as int == ipv4_value(
                octets@,
            ),
    {
        let o0: u32 = octets[0] as u32;
        let o1: u32 = octets[1] as u32;
        let o2: u32 = octets[2] as u32;
        let o3: u32 = octets[3] as u32;
        InetAddress::V4 { port, ip: o0 * 0x100_0000 + o1 * 0x1_0000 + o2 * 0x100 + o3 }
    }

    /// The IPv6 endpoint with the given octets, in network order, and port.
    pub fn from_ipv6(octets: &[u8; 16], port: u16) -> (a: InetAddress)
        ensures
            a matches InetAddress::V6 { port: p, ip } && p == port && ip as int == ipv6_value(
                octets@,
            ),
    {
        let hi: u64 = Self::octets8(octets, 0);
        let lo: u64 = Self::octets8(octets, 8);
        let wide_hi: u128 = hi as u128;
        let wide_lo: u128 = lo as u128;
        InetAddress::V6 { port, ip: wide_hi * 0x1_0000_0000_0000_0000 + wide_lo }
    }

    fn octets8(octets: &[u8; 16], start: usize) -> (v: u64)
        requires
            start <= 8,
        ensures
            v as int == octets8_value(octets@, start as int),
    {
        let o0: u64 = octets[start] as u64;
        let o1: u64 = octets[start + 1] as u64;
        let o2: u64 = octets[start + 2] as u64;
        let o3: u64 = octets[start + 3] as u64;
        let o4: u64 = octets[start + 4] as u64;
        let o5: u64 = octets[start + 5] as u64;
        let o6: u64 = octets[start + 6] as u64;
        let o7: u64 = octets[start + 7] as u64;
        o0 * 0x100_0000_0000_0000 + o1 * 0x1_0000_0000_0000 + o2 * 0x100_0000_0000 + o3
            * 0x1_0000_0000 + o4 * 0x100_0000 + o5 * 0x1_0000 + o6 * 0x100 + o7
    }

    /// The family of the endpoint.
    #[verifier::when_used_as_spec(family_spec)]
    pub fn family(&self) -> (f: InetAddressFamily)
        ensures
            f == self.family_spec(),
    {
        match self {
            InetAddress::Nil => InetAddressFamily::Nil,
            InetAddress::V4 { .. } => InetAddressFamily::IPv4,
            InetAddress::V6 { .. } => InetAddressFamily::IPv6,
        }
    }

    /// Whether the endpoint has no address.
    pub fn is_nil(&self) -> (nil: bool)
        ensures
            nil == (*self == InetAddress::Nil),
    {
        match self {
            InetAddress::Nil => true,
            _ => false,
        }
    }

    /// The port of the endpoint; zero for an endpoint without an address.
    #[verifier::when_used_as_spec(port_spec)]
    pub fn port(&self) -> (p: u16)
        ensures
            p == self.port_spec(),
    {
        match self {
            InetAddress::Nil => 0,
            InetAddress::V4 { port, .. } => *port,
            InetAddress::V6 { port, .. } => *port,
        }
    }

    /// The same address with another port.
    #[verifier::when_used_as_spec(with_port_spec)]
    pub fn with_port(&self, port: u16) -> (a: InetAddress)
        ensures
            a == self.with_port_spec(port),
    {
        match self {
            InetAddress::Nil => InetAddress::Nil,
            InetAddress::V4 { ip, .. } => InetAddress::V4 { port, ip: *ip },
            InetAddress::V6 { ip, .. } => InetAddress::V6 { port, ip: *ip },
        }
    }

    /// Replaces the port and keeps the address.
    pub fn set_port(&mut self, port: u16)
        ensures
            *final(self) == old(self).with_port_spec(port),
    {
        let changed = self.with_port(port);
        *self = changed;
    }

    /// Whether this endpoint comes before `other` in the order of endpoints.
    pub fn precedes(&self, other: &InetAddress) -> (before: bool)
        ensures
            before == self.comes_before(*other),
    {
        match (self, other) {
            (InetAddress::Nil, InetAddress::Nil) => false,
            (InetAddress::Nil, _) => true,
            (InetAddress::V4 { .. }, InetAddress::Nil) => false,
            (
                InetAddress::V4 { port, ip },
                InetAddress::V4 { port: other_port, ip: other_ip },
            ) => { *port < *other_port || (*port == *other_port && *ip < *other_ip) },
            (InetAddress::V4 { .. }, InetAddress::V6 { .. }) => true,
            (
                InetAddress::V6 { port, ip },
                InetAddress::V6 { port: other_port, ip: other_ip },
            ) => { *port < *other_port || (*port == *other_port && *ip < *other_ip) },
            (InetAddress::V6 { .. }, _) => false,
        }
    }
}

/// The order of endpoints is a strict total order: no endpoint comes before
/// itself, the order carries over a middle endpoint, and of two different
/// endpoints one comes before the other.
pub proof fn lemma_endpoint_order_is_total(a: InetAddress, b: InetAddress, c: InetAddress)
    ensures
        !a.comes_before(a),
        a.comes_before(b) && b.comes_before(c) ==> a.comes_before(c),
        a.comes_before(b) ==> !b.comes_before(a),
        a != b ==> a.comes_before(b) || b.comes_before(a),
{
}

/// Changing the port keeps the family and the address, and sets the port of
/// every endpoint that has an address.
pub proof fn lemma_with_port(a: InetAddress, port: u16)
    ensures
        a.with_port_spec(port).family_spec() == a.family_spec(),
        a.with_port_spec(port).ip_spec() == a.ip_spec(),
        a != InetAddress::Nil ==> a.with_port_spec(port).port_spec() == port,
        a.with_port_spec(port).with_port_spec(port) == a.with_port_spec(port),
{
}

} // verus!
