//! Replies to a request.
use vstd::prelude::*;

use crate::error::ResponseCode;
use crate::net::SocketAddr;
use crate::protocol::{RESERVED, SOCKS_VERSION};
use crate::wire::push_socket;
#[allow(unused_imports)]
use crate::{error, net, protocol, wire};

verus! {

/// A reply to a request.
///
/// From RFC 1928 (S6), the server evaluates the request, and returns a reply
/// formed as follows:
///
/// ```text
///    +----+-----+-------+------+----------+----------+
///    |VER | REP |  RSV  | ATYP | BND.ADDR | BND.PORT |
///    +----+-----+-------+------+----------+----------+
///    | 1  |  1  | X'00' |  1   | Variable |    2     |
///    +----+-----+-------+------+----------+----------+
/// ```
///
/// `BND.ADDR` and `BND.PORT` give the address the server is bound to, the port
/// in network octet order.
pub struct SocksReply {
    buf: Vec<u8>,
}

/// The address that is advertised where none is meaningful: all zero.
pub open spec fn unspecified() -> SocketAddr {
    SocketAddr::V4 { ip: [0, 0, 0, 0], port: 0 }
}

/// How a reply is written.
pub open spec fn reply_bytes(status: ResponseCode, bound: SocketAddr) -> Seq<u8> {
    seq![SOCKS_VERSION, error::response_byte(status), RESERVED] + wire::socket_bytes(bound)
}

impl View for SocksReply {
    type V = Seq<u8>;

    closed spec fn view(&self) -> Seq<u8> {
        self.buf@
    }
}

impl SocksReply {
    /// Build a reply with an all-zero `BND.ADDR` / `BND.PORT`.
    ///
    /// Used for `CONNECT` and for error replies, where no server-bound address
    /// is meaningful.
    pub fn new(status: ResponseCode) -> (reply: SocksReply)
        ensures
            reply@ == reply_bytes(status, unspecified()),
            reply@ == seq![0x05u8, error::response_byte(status), 0, 0x01, 0, 0, 0, 0, 0, 0],
    {
        let reply = SocksReply::from_bound(status, None);
        proof {
            law_unspecified_reply(status);
        }
        reply
    }

    /// Build a reply advertising the server-bound address `bound`, as required
    /// by the first `BIND` and `UDP ASSOCIATE` replies (RFC 1928 S6).
    pub fn with_addr(status: ResponseCode, bound: SocketAddr) -> (reply: SocksReply)
        ensures
            reply@ == reply_bytes(status, bound),
    {
        SocksReply::from_bound(status, Some(bound))
    }

    fn from_bound(status: ResponseCode, bound: Option<SocketAddr>) -> (reply: SocksReply)
        ensures
            reply@ == reply_bytes(
                status,
                match bound {
                    Some(addr) => addr,
                    None => unspecified(),
                },
            ),
    {
        let mut buf: Vec<u8> = Vec::with_capacity(22);
        buf.push(SOCKS_VERSION);
        buf.push(status.code());
        buf.push(RESERVED);
        match bound {
            Some(addr) => push_socket(&mut buf, &addr),
            None => push_socket(&mut buf, &SocketAddr::V4 { ip: [0, 0, 0, 0], port: 0 }),
        }
        let reply = SocksReply { buf };
        assert(bound is None ==> [0u8, 0u8, 0u8, 0u8] =~= unspecified()->V4_ip);
        assert(reply@ =~= reply_bytes(
            status,
            match bound {
                Some(addr) => addr,
                None => unspecified(),
            },
        ));
        reply
    }

    /// The raw wire representation of this reply.
    pub fn as_bytes(&self) -> (bytes: &[u8])
        ensures
            bytes@ == self@,
    {
        self.buf.as_slice()
    }

    /// The raw wire representation of this reply, handed over.
    pub fn into_bytes(self) -> (bytes: Vec<u8>)
        ensures
            bytes@ == self@,
    {
        self.buf
    }
}

/// A reply without a bound address is always the exact ten-byte layout, with
/// nothing but the reply code variable.
pub proof fn law_unspecified_reply(status: ResponseCode)
    ensures
        reply_bytes(status, unspecified()) == seq![
            0x05u8,
            error::response_byte(status),
            0,
            0x01,
            0,
            0,
            0,
            0,
            0,
            0,
        ],
{
    assert(reply_bytes(status, unspecified()) =~= seq![
        0x05u8,
        error::response_byte(status),
        0,
        0x01,
        0,
        0,
        0,
        0,
        0,
        0,
    ]);
}

/// The status and the advertised address can be read back from a reply: its
/// second byte is the code, and the address field after `ATYP` holds the
/// octets and the port of `bound` and ends the reply.
pub proof fn law_reply_is_read_back(status: ResponseCode, bound: SocketAddr)
    ensures
        reply_bytes(status, bound)[0] == SOCKS_VERSION,
        reply_bytes(status, bound)[1] == error::response_byte(status),
        reply_bytes(status, bound)[2] == RESERVED,
        protocol::addr_type_of(reply_bytes(status, bound)[3] as int) == Some(
            wire::addr_type_of_socket(bound),
        ),
        wire::dest_at(wire::addr_type_of_socket(bound), reply_bytes(status, bound), 4) == Some(
            (
                net::octets_of(net::ip_of(bound)),
                net::port_of(bound),
                reply_bytes(status, bound).len() as int,
            ),
        ),
        reply_bytes(status, bound).len() == if bound is V4 {
            10int
        } else {
            22
        },
{
    let reply = reply_bytes(status, bound);
    let octets = net::octets_of(net::ip_of(bound));
    net::law_port_round_trip(net::port_of(bound), 0, 0);
    assert(reply.subrange(4, 4 + octets.len() as int) =~= octets);
}

/// The layout of a reply, byte by byte: version, code, a zero, the address
/// type, the octets in order and the port with its high byte first.
pub proof fn law_reply_layout(
    status: ResponseCode,
    v4: [u8; 4],
    v6: [u8; 16],
    port: u16,
    flowinfo: u32,
    scope_id: u32,
)
    ensures
        reply_bytes(status, SocketAddr::V4 { ip: v4, port }) == seq![
            0x05u8,
            error::response_byte(status),
            0x00,
            0x01,
        ] + v4@ + seq![(port / 256) as u8, (port % 256) as u8],
        reply_bytes(status, SocketAddr::V6 { ip: v6, port, flowinfo, scope_id }) == seq![
            0x05u8,
            error::response_byte(status),
            0x00,
            0x04,
        ] + v6@ + seq![(port / 256) as u8, (port % 256) as u8],
{
    assert(reply_bytes(status, SocketAddr::V4 { ip: v4, port }) =~= seq![
        0x05u8,
        error::response_byte(status),
        0x00,
        0x01,
    ] + v4@ + seq![(port / 256) as u8, (port % 256) as u8]);
    assert(reply_bytes(status, SocketAddr::V6 { ip: v6, port, flowinfo, scope_id }) =~= seq![
        0x05u8,
        error::response_byte(status),
        0x00,
        0x04,
    ] + v6@ + seq![(port / 256) as u8, (port % 256) as u8]);
}

} // verus!
