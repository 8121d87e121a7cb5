//! Network addresses as plain values.
use vstd::prelude::*;

verus! {

/// An IP address, by its octets in network order.
#[derive(Clone, Copy, Debug, PartialEq, Eq)]
pub enum IpAddr {
    V4([u8; 4]),
    V6([u8; 16]),
}

/// The address and port of a socket. An IPv6 address carries its flow label
/// and scope, which are part of what tells two sockets apart.
#[allow(inconsistent_fields)]
#[derive(Clone, Copy, Debug, PartialEq, Eq)]
pub enum SocketAddr {
    V4 { ip: [u8; 4], port: u16 },
    V6 { ip: [u8; 16], port: u16, flowinfo: u32, scope_id: u32 },
}

/// The octets of an IP address.
pub open spec fn octets_of(ip: IpAddr) -> Seq<u8> {
    match ip {
        IpAddr::V4(octets) => octets@,
        IpAddr::V6(octets) => octets@,
    }
}

/// The IP address of a socket.
pub open spec fn ip_of(addr: SocketAddr) -> IpAddr {
    match addr {
        SocketAddr::V4 { ip, .. } => IpAddr::V4(ip),
        SocketAddr::V6 { ip, .. } => IpAddr::V6(ip),
    }
}

/// The port of a socket.
pub open spec fn port_of(addr: SocketAddr) -> u16 {
    match addr {
        SocketAddr::V4 { port, .. } => port,
        SocketAddr::V6 { port, .. } => port,
    }
}

/// `port` in network octet order.
pub open spec fn port_bytes(port: u16) -> Seq<u8> {
    seq![(port / 256) as u8, (port % 256) as u8]
}

/// The port that two bytes in network octet order stand for.
pub open spec fn port_from(high: u8, low: u8) -> u16 {
    (high * 256 + low) as u16
}

/// Compare two octet arrays.
fn same_octets<const N: usize>(a: &[u8; N], b: &[u8; N]) -> (same: bool)
    ensures
        same == (*a == *b),
{
    let mut i: usize = 0;
    while i < N
        invariant
            0 <= i <= N,
            forall|j: int| 0 <= j < i ==> a@[j] == b@[j],
        decreases N - i,
    {
        if a[i] != b[i] {
            assert(a@[i as int] != b@[i as int]);
            return false;
        }
        i = i + 1;
    }
    assert(*a =~= *b);
    true
}

impl IpAddr {
    /// Whether the two are the same address.
    pub fn same(&self, other: &IpAddr) -> (same: bool)
        ensures
            same == (*self == *other),
    {
        match (self, other) {
            (IpAddr::V4(a), IpAddr::V4(b)) => same_octets(a, b),
            (IpAddr::V6(a), IpAddr::V6(b)) => same_octets(a, b),
            _ => false,
        }
    }
}

impl SocketAddr {
    /// The IP address of this socket.
    pub fn ip(&self) -> (ip: IpAddr)
        ensures
            ip == ip_of(*self),
    {
        match *self {
            SocketAddr::V4 { ip, .. } => IpAddr::V4(ip),
            SocketAddr::V6 { ip, .. } => IpAddr::V6(ip),
        }
    }

    /// The port of this socket.
    pub fn port(&self) -> (port: u16)
        ensures
            port == port_of(*self),
    {
        match *self {
            SocketAddr::V4 { port, .. } => port,
            SocketAddr::V6 { port, .. } => port,
        }
    }

    /// Whether the two are the same socket.
    pub fn same(&self, other: &SocketAddr) -> (same: bool)
        ensures
            same == (*self == *other),
    {
        match (self, other) {
            (SocketAddr::V4 { ip: a, port: p }, SocketAddr::V4 { ip: b, port: q }) => *p == *q
                && same_octets(a, b),
            (
                SocketAddr::V6 { ip: a, port: p, flowinfo: f, scope_id: s },
                SocketAddr::V6 { ip: b, port: q, flowinfo: g, scope_id: t },
            ) => *p == *q && *f == *g && *s == *t && same_octets(a, b),
            _ => false,
        }
    }
}

/// A port survives being written in network octet order and read back, and
/// so do two bytes read as a port and written again.
pub proof fn law_port_round_trip(port: u16, high: u8, low: u8)
    ensures
        port_bytes(port).len() == 2,
        port_from(port_bytes(port)[0], port_bytes(port)[1]) == port,
        port_bytes(port_from(high, low)) == seq![high, low],
{
    let joined: int = high * 256 + low;
    assert(0 <= joined < 65536);
    assert(joined / 256 == high && joined % 256 == low);
    assert(port_bytes(port_from(high, low)) =~= seq![high, low]);
}

/// A port is written with its high byte first, and read in that order.
pub proof fn law_ports_are_big_endian(port: u16, high: u8, low: u8)
    ensures
        port_bytes(port).len() == 2,
        256 * port_bytes(port)[0] + port_bytes(port)[1] == port,
        port_from(high, low) == 256 * high + low,
{
}

/// A socket has the IP address and the port that it was made with, whatever
/// else it carries.
pub proof fn law_sockets_keep_their_parts(
    v4: [u8; 4],
    v6: [u8; 16],
    port: u16,
    flowinfo: u32,
    scope_id: u32,
)
    ensures
        ip_of(SocketAddr::V4 { ip: v4, port }) == IpAddr::V4(v4),
        port_of(SocketAddr::V4 { ip: v4, port }) == port,
        ip_of(SocketAddr::V6 { ip: v6, port, flowinfo, scope_id }) == IpAddr::V6(v6),
        port_of(SocketAddr::V6 { ip: v6, port, flowinfo, scope_id }) == port,
        octets_of(IpAddr::V4(v4)) == v4@,
        octets_of(IpAddr::V6(v6)) == v6@,
{
}

} // verus!
