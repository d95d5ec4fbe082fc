//! IP and socket addresses as plain values.

use vstd::prelude::*;

verus! {

/// An IPv4 address, by its octets.
#[derive(Clone, Copy, Debug, PartialEq, Eq, Hash, Structural)]
pub struct Ipv4Addr(pub u8, pub u8, pub u8, pub u8);

/// An IPv6 address, by its segments.
#[derive(Clone, Copy, Debug, PartialEq, Eq, Hash, Structural)]
pub struct Ipv6Addr(
    pub u16,
    pub u16,
    pub u16,
    pub u16,
    pub u16,
    pub u16,
    pub u16,
    pub u16,
);

/// An address of either family.
#[derive(Clone, Copy, Debug, PartialEq, Eq, Hash, Structural)]
pub enum IpAddr {
    V4(Ipv4Addr),
    V6(Ipv6Addr),
}

/// An IPv4 address with a port.
#[derive(Clone, Copy, Debug, PartialEq, Eq, Hash, Structural)]
pub struct SocketAddrV4 {
    pub ip: Ipv4Addr,
    pub port: u16,
}

/// An IPv6 address with a port, a flow label and a scope.
#[derive(Clone, Copy, Debug, PartialEq, Eq, Hash, Structural)]
pub struct SocketAddrV6 {
    pub ip: Ipv6Addr,
    pub port: u16,
    pub flowinfo: u32,
    pub scope_id: u32,
}

/// An address of either family with a port.
#[derive(Clone, Copy, Debug, PartialEq, Eq, Hash, Structural)]
pub enum SocketAddr {
    V4(SocketAddrV4),
    V6(SocketAddrV6),
}

/// The two octets of a segment, most significant first.
pub open spec fn segment_octets(n: u16) -> Seq<u8> {
    seq![(n / 256) as u8, (n % 256) as u8]
}

/// The segment that two octets make.
pub open spec fn segment_of(hi: u8, lo: u8) -> u16 {
    (hi as int * 256 + lo as int) as u16
}

/// The segment that two octets make.
pub fn make_segment(hi: u8, lo: u8) -> (r: u16)
    ensures
        r == segment_of(hi, lo),
{
    (hi as u16) * 256 + (lo as u16)
}

/// Splitting a segment into octets loses nothing.
pub proof fn lemma_segment_octets(n: u16)
    ensures
        segment_of(segment_octets(n)[0], segment_octets(n)[1]) == n,
{
}

impl Ipv4Addr {
    pub open spec fn octets(self) -> Seq<u8> {
        seq![self.0, self.1, self.2, self.3]
    }

    /// In `127.0.0.0/8`.
    pub open spec fn loopback(self) -> bool {
        self.0 == 127
    }

    /// `0.0.0.0`.
    pub open spec fn unspecified(self) -> bool {
        self == Ipv4Addr(0, 0, 0, 0)
    }
}

impl Ipv6Addr {
    pub open spec fn segments(self) -> Seq<u16> {
        seq![self.0, self.1, self.2, self.3, self.4, self.5, self.6, self.7]
    }

    /// The sixteen octets in network order.
    pub open spec fn octets(self) -> Seq<u8> {
        segment_octets(self.0) + segment_octets(self.1) + segment_octets(self.2) + segment_octets(
            self.3,
        ) + segment_octets(self.4) + segment_octets(self.5) + segment_octets(self.6)
            + segment_octets(self.7)
    }

    /// `::1`.
    pub open spec fn loopback(self) -> bool {
        self == Ipv6Addr(0, 0, 0, 0, 0, 0, 0, 1)
    }

    /// `::`.
    pub open spec fn unspecified(self) -> bool {
        self == Ipv6Addr(0, 0, 0, 0, 0, 0, 0, 0)
    }
}

/// The address with the given eight segments.
pub open spec fn ipv6_of(s: Seq<u16>) -> Ipv6Addr {
    Ipv6Addr(s[0], s[1], s[2], s[3], s[4], s[5], s[6], s[7])
}

impl IpAddr {
    pub open spec fn loopback(self) -> bool {
        match self {
            IpAddr::V4(ip) => ip.loopback(),
            IpAddr::V6(ip) => ip.loopback(),
        }
    }

    pub open spec fn unspecified(self) -> bool {
        match self {
            IpAddr::V4(ip) => ip.unspecified(),
            IpAddr::V6(ip) => ip.unspecified(),
        }
    }

    /// Whether the address names the host itself.
    pub fn is_loopback(&self) -> (r: bool)
        ensures
            r == self.loopback(),
    {
        match *self {
            IpAddr::V4(ip) => ip.0 == 127,
            IpAddr::V6(ip) => ip == Ipv6Addr(0, 0, 0, 0, 0, 0, 0, 1),
        }
    }

    /// Whether the address stands for all addresses of the host.
    pub fn is_unspecified(&self) -> (r: bool)
        ensures
            r == self.unspecified(),
    {
        match *self {
            IpAddr::V4(ip) => ip == Ipv4Addr(0, 0, 0, 0),
            IpAddr::V6(ip) => ip == Ipv6Addr(0, 0, 0, 0, 0, 0, 0, 0),
        }
    }
}

impl SocketAddr {
    /// The address with the given IP and port, without flow label and scope.
    pub open spec fn of(ip: IpAddr, port: u16) -> SocketAddr {
        match ip {
            IpAddr::V4(ip) => SocketAddr::V4(SocketAddrV4 { ip, port }),
            IpAddr::V6(ip) => SocketAddr::V6(
                SocketAddrV6 { ip, port, flowinfo: 0, scope_id: 0 },
            ),
        }
    }

    pub open spec fn spec_ip(self) -> IpAddr {
        match self {
            SocketAddr::V4(a) => IpAddr::V4(a.ip),
            SocketAddr::V6(a) => IpAddr::V6(a.ip),
        }
    }

    pub open spec fn spec_port(self) -> u16 {
        match self {
            SocketAddr::V4(a) => a.port,
            SocketAddr::V6(a) => a.port,
        }
    }

    /// Makes an address without flow label and scope.
    pub fn new(ip: IpAddr, port: u16) -> (r: SocketAddr)
        ensures
            r == SocketAddr::of(ip, port),
    {
        match ip {
            IpAddr::V4(ip) => SocketAddr::V4(SocketAddrV4 { ip, port }),
            IpAddr::V6(ip) => SocketAddr::V6(
                SocketAddrV6 { ip, port, flowinfo: 0, scope_id: 0 },
            ),
        }
    }

    /// The IP address.
    pub fn ip(&self) -> (r: IpAddr)
        ensures
            r == self.spec_ip(),
    {
        match *self {
            SocketAddr::V4(a) => IpAddr::V4(a.ip),
            SocketAddr::V6(a) => IpAddr::V6(a.ip),
        }
    }

    /// The port.
    pub fn port(&self) -> (r: u16)
        ensures
            r == self.spec_port(),
    {
        match *self {
            SocketAddr::V4(a) => a.port,
            SocketAddr::V6(a) => a.port,
        }
    }

    /// Whether the address is of the IPv6 family.
    pub fn is_ipv6(&self) -> (r: bool)
        ensures
            r == (*self is V6),
    {
        match *self {
            SocketAddr::V4(_) => false,
            SocketAddr::V6(_) => true,
        }
    }
}

/// A socket address with an unspecified IP and port 0, suitable for binding.
pub fn socket_addr_with_unspecified_ip_port(ipv6: bool) -> (r: SocketAddr)
    ensures
        r.spec_ip().unspecified(),
        r.spec_port() == 0,
        ipv6 <==> r is V6,
        r == SocketAddr::of(r.spec_ip(), 0),
{
    if ipv6 {
        SocketAddr::new(IpAddr::V6(Ipv6Addr(0, 0, 0, 0, 0, 0, 0, 0)), 0)
    } else {
        SocketAddr::new(IpAddr::V4(Ipv4Addr(0, 0, 0, 0)), 0)
    }
}

/// `127.0.0.1` with the given port.
pub open spec fn local_addr(port: u16) -> SocketAddr {
    SocketAddr::of(IpAddr::V4(Ipv4Addr(127, 0, 0, 1)), port)
}

/// `127.0.0.1` with the given port.
pub fn localhost(port: u16) -> (r: SocketAddr)
    ensures
        r == local_addr(port),
{
    SocketAddr::new(IpAddr::V4(Ipv4Addr(127, 0, 0, 1)), port)
}

} // verus!
