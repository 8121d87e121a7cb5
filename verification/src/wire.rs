//! Parsers and encoders of the SOCKS5 wire format.
//!
//! Every parser works on a byte slice, reports how many bytes it consumed and
//! leaves trailing bytes alone. The specification functions ending in `_at`
//! say what the parsers return; those ending in `_bytes` say how a message is
//! written.
use vstd::prelude::*;
use vstd::slice::{slice_subrange, slice_to_vec};

use crate::error::{truncated, ErrorView, MerinoError, ResponseCode};
use crate::net::SocketAddr;
use crate::protocol::{
    AddrType, RequestView, SOCKSReq, SockCommand, UdpRequest, UdpRequestView, UserPassRequest,
    UserPassView, RESERVED, SOCKS_VERSION,
};
#[allow(unused_imports)]
use crate::{error, net, protocol};

verus! {

// ---------------------------------------------------------------- addresses
/// Where the address of type `t` lies when its field starts at `at`: the index
/// of its first byte and the index past its last one. A domain name is
/// preceded by its length. `None` when the bytes end first.
pub open spec fn addr_span(t: AddrType, bytes: Seq<u8>, at: int) -> Option<(int, int)> {
    match t {
        AddrType::V4 => if at + 4 <= bytes.len() {
            Some((at, at + 4))
        } else {
            None
        },
        AddrType::V6 => if at + 16 <= bytes.len() {
            Some((at, at + 16))
        } else {
            None
        },
        AddrType::Domain => if at + 1 <= bytes.len() && at + 1 + bytes[at] <= bytes.len() {
            Some((at + 1, at + 1 + bytes[at]))
        } else {
            None
        },
    }
}

/// The address of type `t` and the port after it when the address field starts
/// at `at`, with the index past the port. `None` when the bytes end first.
pub open spec fn dest_at(t: AddrType, bytes: Seq<u8>, at: int) -> Option<(Seq<u8>, u16, int)> {
    match addr_span(t, bytes, at) {
        Some((start, end)) => if end + 2 <= bytes.len() {
            Some((bytes.subrange(start, end), net::port_from(bytes[end], bytes[end + 1]), end + 2))
        } else {
            None
        },
        None => None,
    }
}

/// Whether `addr` can be written as an address of type `t`.
pub open spec fn addr_fits(t: AddrType, addr: Seq<u8>) -> bool {
    match t {
        AddrType::V4 => addr.len() == 4,
        AddrType::V6 => addr.len() == 16,
        AddrType::Domain => addr.len() <= 255,
    }
}

/// How an address and a port are written.
pub open spec fn dest_bytes(t: AddrType, addr: Seq<u8>, port: u16) -> Seq<u8> {
    match t {
        AddrType::Domain => seq![addr.len() as u8] + addr + net::port_bytes(port),
        _ => addr + net::port_bytes(port),
    }
}

/// Find the address and the port in `bytes`: the bounds of the address, the
/// port and the index past it.
fn parse_dest(t: AddrType, bytes: &[u8], at: usize) -> (found: Option<(usize, usize, u16)>)
    requires
        at <= bytes@.len(),
    ensures
        match found {
            Some((start, end, port)) => {
                &&& addr_span(t, bytes@, at as int) == Some((start as int, end as int))
                &&& start <= end <= bytes@.len() - 2
                &&& dest_at(t, bytes@, at as int) == Some(
                    (bytes@.subrange(start as int, end as int), port, end + 2),
                )
            },
            None => dest_at(t, bytes@, at as int) is None,
        },
{
    let (start, size): (usize, usize) = match t {
        AddrType::Domain => {
            if at == bytes.len() {
                return None;
            }
            (at + 1, bytes[at] as usize)
        },
        AddrType::V4 => (at, 4),
        AddrType::V6 => (at, 16),
    };
    if bytes.len() - start < size {
        return None;
    }
    let end: usize = start + size;
    if bytes.len() - end < 2 {
        return None;
    }
    let port: u16 = (bytes[end] as u16) * 256 + bytes[end + 1] as u16;
    Some((start, end, port))
}

/// Append a run of bytes.
pub fn push_octets(buf: &mut Vec<u8>, octets: &[u8])
    ensures
        final(buf)@ == old(buf)@ + octets@,
{
    buf.extend_from_slice(octets);
    assert(buf@ =~= old(buf)@ + octets@);
}

/// The address type of a socket's IP address.
pub open spec fn addr_type_of_socket(addr: SocketAddr) -> AddrType {
    match addr {
        SocketAddr::V4 { .. } => AddrType::V4,
        SocketAddr::V6 { .. } => AddrType::V6,
    }
}

/// How a socket's address is written: `ATYP`, address and port.
pub open spec fn socket_bytes(addr: SocketAddr) -> Seq<u8> {
    seq![protocol::addr_type_byte(addr_type_of_socket(addr))] + dest_bytes(
        addr_type_of_socket(addr),
        net::octets_of(net::ip_of(addr)),
        net::port_of(addr),
    )
}

/// Append the address type, the address and the port of a socket.
pub fn push_socket(buf: &mut Vec<u8>, addr: &SocketAddr)
    ensures
        final(buf)@ == old(buf)@ + socket_bytes(*addr),
{
    match addr {
        SocketAddr::V4 { ip, port } => {
            buf.push(AddrType::V4.code());
            push_octets(buf, ip.as_slice());
            buf.push((*port / 256) as u8);
            buf.push((*port % 256) as u8);
        },
        SocketAddr::V6 { ip, port, .. } => {
            buf.push(AddrType::V6.code());
            push_octets(buf, ip.as_slice());
            buf.push((*port / 256) as u8);
            buf.push((*port % 256) as u8);
        },
    }
    assert(buf@ =~= old(buf)@ + socket_bytes(*addr));
}

// ---------------------------------------------------------------- greeting
/// What [`parse_greeting`] finds: version, number of methods, the methods and
/// the number of bytes consumed.
pub open spec fn greeting_at(bytes: Seq<u8>) -> Result<(u8, u8, Seq<u8>, int), ErrorView> {
    if bytes.len() < 2 || bytes.len() < 2 + bytes[1] {
        Err(error::truncated_error())
    } else {
        Ok((bytes[0], bytes[1], bytes.subrange(2, 2 + bytes[1]), 2 + bytes[1]))
    }
}

/// How a greeting is written.
pub open spec fn greeting_bytes(version: u8, methods: Seq<u8>) -> Seq<u8> {
    seq![version, methods.len() as u8] + methods
}

/// Parse the SOCKS5 greeting (`VER, NMETHODS, METHODS..`) from a byte slice.
///
/// Returns `(version, nmethods, methods, consumed)`. Only the bytes belonging
/// to the greeting are inspected; trailing pipelined data is left untouched.
pub fn parse_greeting(bytes: &[u8]) -> (parsed: Result<(u8, u8, Vec<u8>, usize), MerinoError>)
    ensures
        match parsed {
            Ok((version, nmethods, methods, consumed)) => greeting_at(bytes@) == Ok::<_, ErrorView>(
                (version, nmethods, methods@, consumed as int),
            ),
            Err(error) => greeting_at(bytes@) == Err::<(u8, u8, Seq<u8>, int), _>(error@),
        },
{
    if bytes.len() < 2 {
        return Err(truncated());
    }
    let version: u8 = bytes[0];
    let nmethods: u8 = bytes[1];
    let consumed: usize = 2 + nmethods as usize;
    if bytes.len() < consumed {
        return Err(truncated());
    }
    Ok((version, nmethods, slice_to_vec(slice_subrange(bytes, 2, consumed)), consumed))
}

// ---------------------------------------------------------------- userpass
/// What [`parse_userpass`] finds: the frame and the number of bytes consumed.
pub open spec fn userpass_at(bytes: Seq<u8>) -> Result<(UserPassView, int), ErrorView> {
    if bytes.len() < 2 || bytes.len() < 3 + bytes[1] || bytes.len() < 3 + bytes[1] + bytes[2
        + bytes[1]] {
        Err(error::truncated_error())
    } else {
        let ulen = bytes[1] as int;
        let plen = bytes[2 + ulen] as int;
        Ok(
            (
                UserPassView {
                    version: bytes[0],
                    username: bytes.subrange(2, 2 + ulen),
                    password: bytes.subrange(3 + ulen, 3 + ulen + plen),
                },
                3 + ulen + plen,
            ),
        )
    }
}

/// How a USERPASS sub-negotiation frame is written.
pub open spec fn userpass_bytes(frame: UserPassView) -> Seq<u8> {
    seq![frame.version, frame.username.len() as u8] + frame.username
        + seq![frame.password.len() as u8] + frame.password
}

/// Parse a USERPASS sub-negotiation frame
/// (`VER, ULEN, UNAME.., PLEN, PASSWD..`) from a byte slice.
///
/// Returns the parsed request and the number of bytes consumed.
pub fn parse_userpass(bytes: &[u8]) -> (parsed: Result<(UserPassRequest<'_>, usize), MerinoError>)
    ensures
        match parsed {
            Ok((frame, consumed)) => userpass_at(bytes@) == Ok::<_, ErrorView>(
                (frame@, consumed as int),
            ),
            Err(error) => userpass_at(bytes@) == Err::<(UserPassView, int), _>(error@),
        },
{
    if bytes.len() < 2 {
        return Err(truncated());
    }
    let version: u8 = bytes[0];
    let ulen: usize = bytes[1] as usize;
    let mut pos: usize = 2;
    if bytes.len() < pos + ulen {
        return Err(truncated());
    }
    let username = slice_subrange(bytes, pos, pos + ulen);
    pos = pos + ulen;

    if bytes.len() < pos + 1 {
        return Err(truncated());
    }
    let plen: usize = bytes[pos] as usize;
    pos = pos + 1;
    if bytes.len() < pos + plen {
        return Err(truncated());
    }
    let password = slice_subrange(bytes, pos, pos + plen);
    pos = pos + plen;

    Ok((UserPassRequest { version, username, password }, pos))
}

// ---------------------------------------------------------------- request
/// What [`parse_request`] finds: the request and the number of bytes consumed.
///
/// The fixed header is judged before anything after it: its version, then its
/// command, then its address type.
pub open spec fn request_at(bytes: Seq<u8>) -> Result<(RequestView, int), ErrorView> {
    if bytes.len() < 4 {
        Err(error::truncated_error())
    } else if bytes[0] != SOCKS_VERSION {
        Err(ErrorView::Socks(ResponseCode::Failure))
    } else {
        match (protocol::command_of(bytes[1] as int), protocol::addr_type_of(bytes[3] as int)) {
            (None, _) => Err(ErrorView::Socks(ResponseCode::CommandNotSupported)),
            (_, None) => Err(ErrorView::Socks(ResponseCode::AddrTypeNotSupported)),
            (Some(command), Some(addr_type)) => match dest_at(addr_type, bytes, 4) {
                None => Err(error::truncated_error()),
                Some((addr, port, end)) => Ok(
                    (RequestView { version: bytes[0], command, addr_type, addr, port }, end),
                ),
            },
        }
    }
}

/// How a request is written, with `reserved` in its reserved byte.
pub open spec fn request_bytes(request: RequestView, reserved: u8) -> Seq<u8> {
    seq![
        request.version,
        protocol::command_byte(request.command),
        reserved,
        protocol::addr_type_byte(request.addr_type),
    ] + dest_bytes(request.addr_type, request.addr, request.port)
}

/// Parse a SOCKS5 request (`VER, CMD, RSV, ATYP, DST.ADDR, DST.PORT`) from a
/// byte slice.
///
/// Returns the request and the number of bytes consumed. A version other than
/// five is a failure, an unknown command or address type is reported by its
/// own code, and anything short of the address and port that `ATYP` announces
/// yields `truncated()`. The reserved byte is ignored.
pub fn parse_request(bytes: &[u8]) -> (parsed: Result<(SOCKSReq, usize), MerinoError>)
    ensures
        match parsed {
            Ok((request, consumed)) => request_at(bytes@) == Ok::<_, ErrorView>(
                (request@, consumed as int),
            ),
            Err(error) => request_at(bytes@) == Err::<(RequestView, int), _>(error@),
        },
{
    if bytes.len() < 4 {
        return Err(truncated());
    }
    let version: u8 = bytes[0];
    if version != SOCKS_VERSION {
        return Err(MerinoError::Socks(ResponseCode::Failure));
    }
    let command = match SockCommand::from(bytes[1] as usize) {
        Some(command) => command,
        None => return Err(MerinoError::Socks(ResponseCode::CommandNotSupported)),
    };
    let addr_type = match AddrType::from(bytes[3] as usize) {
        Some(addr_type) => addr_type,
        None => return Err(MerinoError::Socks(ResponseCode::AddrTypeNotSupported)),
    };
    match parse_dest(addr_type, bytes, 4) {
        Some((start, end, port)) => {
            let addr = slice_to_vec(slice_subrange(bytes, start, end));
            Ok((SOCKSReq { version, command, addr_type, addr, port }, end + 2))
        },
        None => Err(truncated()),
    }
}

// ---------------------------------------------------------------- datagrams
/// What [`parse_udp_header`] finds: the header and the number of bytes
/// consumed.
pub open spec fn udp_header_at(bytes: Seq<u8>) -> Result<(UdpRequestView, int), ErrorView> {
    if bytes.len() < 4 {
        Err(error::truncated_error())
    } else {
        match protocol::addr_type_of(bytes[3] as int) {
            None => Err(ErrorView::Socks(ResponseCode::AddrTypeNotSupported)),
            Some(addr_type) => match dest_at(addr_type, bytes, 4) {
                None => Err(error::truncated_error()),
                Some((addr, port, end)) => Ok(
                    (UdpRequestView { frag: bytes[2], addr_type, addr, port }, end),
                ),
            },
        }
    }
}

/// How a UDP request header is written, with `reserved` in its reserved bytes.
pub open spec fn udp_request_bytes(header: UdpRequestView, reserved: (u8, u8)) -> Seq<u8> {
    seq![reserved.0, reserved.1, header.frag, protocol::addr_type_byte(header.addr_type)] + dest_bytes(
        header.addr_type,
        header.addr,
        header.port,
    )
}

/// Parse a SOCKS5 UDP request header
/// (`RSV, RSV, FRAG, ATYP, DST.ADDR, DST.PORT`) from a byte slice.
///
/// Returns the header and the number of bytes consumed; the remaining bytes are
/// the datagram payload.
pub fn parse_udp_header(bytes: &[u8]) -> (parsed: Result<(UdpRequest<'_>, usize), MerinoError>)
    ensures
        match parsed {
            Ok((header, consumed)) => udp_header_at(bytes@) == Ok::<_, ErrorView>(
                (header@, consumed as int),
            ),
            Err(error) => udp_header_at(bytes@) == Err::<(UdpRequestView, int), _>(error@),
        },
{
    if bytes.len() < 4 {
        return Err(truncated());
    }
    let frag: u8 = bytes[2];
    let addr_type = match AddrType::from(bytes[3] as usize) {
        Some(addr_type) => addr_type,
        None => return Err(MerinoError::Socks(ResponseCode::AddrTypeNotSupported)),
    };
    match parse_dest(addr_type, bytes, 4) {
        Some((start, end, port)) => {
            let addr = slice_subrange(bytes, start, end);
            Ok((UdpRequest { frag, addr_type, addr, port }, end + 2))
        },
        None => Err(truncated()),
    }
}

/// How the UDP header in front of a datagram from `addr` is written.
pub open spec fn udp_header_bytes(addr: SocketAddr) -> Seq<u8> {
    seq![RESERVED, RESERVED, 0u8] + socket_bytes(addr)
}

/// Encode an RFC 1928 S7 UDP request header for `addr` with `FRAG = 0`.
pub fn encode_udp_header(addr: SocketAddr) -> (header: Vec<u8>)
    ensures
        header@ == udp_header_bytes(addr),
{
    let mut buf: Vec<u8> = Vec::with_capacity(22);
    buf.push(RESERVED);
    buf.push(RESERVED);
    buf.push(0);
    push_socket(&mut buf, &addr);
    assert(buf@ =~= udp_header_bytes(addr));
    buf
}

// ---------------------------------------------------------------- laws
/// What is written as an address and a port is read back, whatever surrounds
/// it.
proof fn lemma_dest_read_back(
    t: AddrType,
    addr: Seq<u8>,
    port: u16,
    before: Seq<u8>,
    after: Seq<u8>,
)
    requires
        addr_fits(t, addr),
    ensures
        dest_at(t, before + dest_bytes(t, addr, port) + after, before.len() as int) == Some(
            (addr, port, (before.len() + dest_bytes(t, addr, port).len()) as int),
        ),
{
    let bytes = before + dest_bytes(t, addr, port) + after;
    let at = before.len() as int;
    net::law_port_round_trip(port, 0, 0);
    match addr_span(t, bytes, at) {
        Some((start, end)) => {
            assert(bytes.subrange(start, end) =~= addr);
            assert(bytes[end] == net::port_bytes(port)[0]);
            assert(bytes[end + 1] == net::port_bytes(port)[1]);
        },
        None => {
            assert(bytes[at] == dest_bytes(t, addr, port)[0]);
        },
    }
}

/// An address and a port that were read are, byte for byte, what would be
/// written for them.
proof fn lemma_dest_written_back(t: AddrType, bytes: Seq<u8>, at: int)
    requires
        0 <= at,
    ensures
        dest_at(t, bytes, at) matches Some((addr, port, end)) ==> {
            &&& at < end <= bytes.len()
            &&& addr_fits(t, addr)
            &&& bytes.subrange(at, end) == dest_bytes(t, addr, port)
        },
{
    if let Some((addr, port, end)) = dest_at(t, bytes, at) {
        net::law_port_round_trip(0, bytes[end - 2], bytes[end - 1]);
        assert(bytes.subrange(at, end) =~= dest_bytes(t, addr, port));
    }
}

/// A successful parse never claims to consume more than it was given, and
/// always consumes something.
pub proof fn law_consumed_never_exceeds_input(bytes: Seq<u8>)
    ensures
        greeting_at(bytes) matches Ok((_, _, _, consumed)) ==> 2 <= consumed <= bytes.len(),
        userpass_at(bytes) matches Ok((_, consumed)) ==> 3 <= consumed <= bytes.len(),
        request_at(bytes) matches Ok((_, consumed)) ==> 7 <= consumed <= bytes.len(),
        udp_header_at(bytes) matches Ok((_, consumed)) ==> 7 <= consumed <= bytes.len(),
{
}

/// A parsed address always has the length implied by its type.
pub proof fn law_parsed_addr_length_matches_type(bytes: Seq<u8>)
    ensures
        request_at(bytes) matches Ok((request, _)) ==> addr_fits(request.addr_type, request.addr),
        udp_header_at(bytes) matches Ok((header, _)) ==> addr_fits(header.addr_type, header.addr),
{
}

/// Every well-formed request round-trips through the parser, whatever its
/// reserved byte holds and whatever follows it.
pub proof fn law_request_round_trip(request: RequestView, reserved: u8, tail: Seq<u8>)
    requires
        request.version == SOCKS_VERSION,
        addr_fits(request.addr_type, request.addr),
    ensures
        request_at(request_bytes(request, reserved) + tail) == Ok::<_, ErrorView>(
            (request, request_bytes(request, reserved).len() as int),
        ),
{
    let head = seq![
        request.version,
        protocol::command_byte(request.command),
        reserved,
        protocol::addr_type_byte(request.addr_type),
    ];
    lemma_dest_read_back(request.addr_type, request.addr, request.port, head, tail);
}

/// A parsed request is, byte for byte, what would be written for it.
pub proof fn law_request_written_back(bytes: Seq<u8>)
    ensures
        request_at(bytes) matches Ok((request, consumed)) ==> request.version == SOCKS_VERSION
            && bytes.take(consumed) == request_bytes(request, bytes[2]),
{
    if let Ok((request, consumed)) = request_at(bytes) {
        lemma_dest_written_back(request.addr_type, bytes, 4);
        assert(bytes.take(consumed) =~= bytes.take(4) + bytes.subrange(4, consumed));
        assert(bytes.take(consumed) =~= request_bytes(request, bytes[2]));
    }
}

/// Every well-formed UDP header round-trips through the parser; what follows
/// it is the payload.
pub proof fn law_udp_header_round_trip(
    header: UdpRequestView,
    reserved: (u8, u8),
    payload: Seq<u8>,
)
    requires
        addr_fits(header.addr_type, header.addr),
    ensures
        udp_header_at(udp_request_bytes(header, reserved) + payload) == Ok::<_, ErrorView>(
            (header, udp_request_bytes(header, reserved).len() as int),
        ),
{
    let head = seq![
        reserved.0,
        reserved.1,
        header.frag,
        protocol::addr_type_byte(header.addr_type),
    ];
    lemma_dest_read_back(header.addr_type, header.addr, header.port, head, payload);
}

/// A parsed UDP header is, byte for byte, what would be written for it.
pub proof fn law_udp_header_written_back(bytes: Seq<u8>)
    ensures
        udp_header_at(bytes) matches Ok((header, consumed)) ==> bytes.take(consumed)
            == udp_request_bytes(header, (bytes[0], bytes[1])),
{
    if let Ok((header, consumed)) = udp_header_at(bytes) {
        lemma_dest_written_back(header.addr_type, bytes, 4);
        assert(bytes.take(consumed) =~= bytes.take(4) + bytes.subrange(4, consumed));
        assert(bytes.take(consumed) =~= udp_request_bytes(header, (bytes[0], bytes[1])));
    }
}

/// The header encoded for a socket is read back as an unfragmented header with
/// that socket's address and port, and leaves exactly the payload.
pub proof fn law_encoded_udp_header_is_read_back(addr: SocketAddr, payload: Seq<u8>)
    ensures
        udp_header_at(udp_header_bytes(addr) + payload) == Ok::<_, ErrorView>(
            (
                UdpRequestView {
                    frag: 0,
                    addr_type: addr_type_of_socket(addr),
                    addr: net::octets_of(net::ip_of(addr)),
                    port: net::port_of(addr),
                },
                udp_header_bytes(addr).len() as int,
            ),
        ),
        (udp_header_bytes(addr) + payload).skip(udp_header_bytes(addr).len() as int) == payload,
{
    let header = UdpRequestView {
        frag: 0,
        addr_type: addr_type_of_socket(addr),
        addr: net::octets_of(net::ip_of(addr)),
        port: net::port_of(addr),
    };
    law_udp_header_round_trip(header, (RESERVED, RESERVED), payload);
    assert(udp_header_bytes(addr) =~= udp_request_bytes(header, (RESERVED, RESERVED)));
    assert((udp_header_bytes(addr) + payload).skip(udp_header_bytes(addr).len() as int)
        =~= payload);
}

/// Every USERPASS frame whose fields fit their length bytes round-trips
/// through the parser, and a parsed frame is what would be written for it.
pub proof fn law_userpass_round_trip(frame: UserPassView, tail: Seq<u8>, bytes: Seq<u8>)
    requires
        frame.username.len() <= 255,
        frame.password.len() <= 255,
    ensures
        userpass_at(userpass_bytes(frame) + tail) == Ok::<_, ErrorView>(
            (frame, userpass_bytes(frame).len() as int),
        ),
        userpass_at(bytes) matches Ok((found, consumed)) ==> bytes.take(consumed)
            == userpass_bytes(found),
{
    let written = userpass_bytes(frame) + tail;
    let ulen = frame.username.len() as int;
    let plen = frame.password.len() as int;
    assert(written[1] == ulen);
    assert(written[2 + ulen] == plen);
    assert(written.subrange(2, 2 + ulen) =~= frame.username);
    assert(written.subrange(3 + ulen, 3 + ulen + plen) =~= frame.password);
    if let Ok((found, consumed)) = userpass_at(bytes) {
        assert(bytes.take(consumed) =~= userpass_bytes(found));
    }
}

/// Every greeting with at most 255 methods round-trips through the parser, and
/// a parsed greeting is what would be written for it.
pub proof fn law_greeting_round_trip(version: u8, methods: Seq<u8>, tail: Seq<u8>, bytes: Seq<u8>)
    requires
        methods.len() <= 255,
    ensures
        greeting_at(greeting_bytes(version, methods) + tail) == Ok::<_, ErrorView>(
            (version, methods.len() as u8, methods, 2 + methods.len() as int),
        ),
        greeting_at(bytes) matches Ok((found, nmethods, offered, consumed)) ==> nmethods
            == offered.len() && bytes.take(consumed) == greeting_bytes(found, offered),
{
    let written = greeting_bytes(version, methods) + tail;
    assert(written.subrange(2, 2 + methods.len() as int) =~= methods);
    if let Ok((found, nmethods, offered, consumed)) = greeting_at(bytes) {
        assert(bytes.take(consumed) =~= greeting_bytes(found, offered));
    }
}

/// Pipelined data is left alone: what follows a message changes nothing about
/// how it is parsed, unless it was cut short.
pub proof fn law_trailing_bytes_do_not_matter(bytes: Seq<u8>, tail: Seq<u8>)
    ensures
        greeting_at(bytes) is Ok ==> greeting_at(bytes + tail) == greeting_at(bytes),
        userpass_at(bytes) is Ok ==> userpass_at(bytes + tail) == userpass_at(bytes),
        request_at(bytes) != Err::<(RequestView, int), _>(error::truncated_error()) ==> request_at(
            bytes + tail,
        ) == request_at(bytes),
        udp_header_at(bytes) != Err::<(UdpRequestView, int), _>(error::truncated_error())
            ==> udp_header_at(bytes + tail) == udp_header_at(bytes),
{
    let longer = bytes + tail;
    if let Ok((_, nmethods, _, consumed)) = greeting_at(bytes) {
        assert(longer.subrange(2, consumed) =~= bytes.subrange(2, consumed));
    }
    if let Ok((frame, consumed)) = userpass_at(bytes) {
        let ulen = bytes[1] as int;
        assert(longer.subrange(2, 2 + ulen) =~= bytes.subrange(2, 2 + ulen));
        assert(longer.subrange(3 + ulen, consumed) =~= bytes.subrange(3 + ulen, consumed));
    }
    if bytes.len() >= 4 {
        if let Some(t) = protocol::addr_type_of(bytes[3] as int) {
            if let Some((start, end)) = addr_span(t, bytes, 4) {
                assert(longer.subrange(start, end) =~= bytes.subrange(start, end));
            }
        }
    }
}

/// The layout of a greeting, byte by byte.
pub proof fn law_greeting_layout(bytes: Seq<u8>)
    ensures
        greeting_at(bytes) is Ok <==> bytes.len() >= 2 && bytes.len() >= 2 + bytes[1],
        greeting_at(bytes) matches Err(error) ==> error == error::truncated_error(),
        greeting_at(bytes) matches Ok((version, nmethods, methods, consumed)) ==> {
            &&& version == bytes[0]
            &&& nmethods == bytes[1]
            &&& methods.len() == bytes[1]
            &&& consumed == 2 + bytes[1]
            &&& forall|i: int| 0 <= i < methods.len() ==> methods[i] == bytes[2 + i]
        },
{
}

/// The layout of a USERPASS frame, byte by byte.
pub proof fn law_userpass_layout(bytes: Seq<u8>)
    ensures
        userpass_at(bytes) is Ok <==> bytes.len() >= 2 && bytes.len() >= 3 + bytes[1] && bytes.len()
            >= 3 + bytes[1] + bytes[2 + bytes[1]],
        userpass_at(bytes) matches Err(error) ==> error == error::truncated_error(),
        userpass_at(bytes) matches Ok((frame, consumed)) ==> {
            let ulen = bytes[1] as int;
            let plen = bytes[2 + ulen] as int;
            &&& frame.version == bytes[0]
            &&& frame.username.len() == ulen
            &&& frame.password.len() == plen
            &&& consumed == 3 + ulen + plen
            &&& forall|i: int| 0 <= i < ulen ==> frame.username[i] == bytes[2 + i]
            &&& forall|i: int| 0 <= i < plen ==> frame.password[i] == bytes[3 + ulen + i]
        },
{
}

/// How many bytes an address of the given type takes up in front of the port,
/// when its field starts at the fifth byte.
pub open spec fn field_length(atyp: u8, bytes: Seq<u8>) -> int {
    if atyp == 0x01 {
        4
    } else if atyp == 0x04 {
        16
    } else {
        1 + bytes[4]
    }
}

/// The layout of a request, byte by byte: which of them are refused, for what,
/// and where the fields of the others stand.
pub proof fn law_request_layout(bytes: Seq<u8>)
    ensures
        bytes.len() < 4 ==> request_at(bytes) == Err::<(RequestView, int), _>(
            error::truncated_error(),
        ),
        bytes.len() >= 4 && bytes[0] != 0x05 ==> request_at(bytes) == Err::<(RequestView, int), _>(
            ErrorView::Socks(ResponseCode::Failure),
        ),
        bytes.len() >= 4 && bytes[0] == 0x05 && (bytes[1] < 0x01 || bytes[1] > 0x03) ==> request_at(
            bytes,
        ) == Err::<(RequestView, int), _>(ErrorView::Socks(ResponseCode::CommandNotSupported)),
        bytes.len() >= 4 && bytes[0] == 0x05 && 0x01 <= bytes[1] <= 0x03 ==> {
            if bytes[3] != 0x01 && bytes[3] != 0x03 && bytes[3] != 0x04 {
                request_at(bytes) == Err::<(RequestView, int), _>(
                    ErrorView::Socks(ResponseCode::AddrTypeNotSupported),
                )
            } else if bytes[3] == 0x03 && bytes.len() < 5 || bytes.len() < 6 + field_length(
                bytes[3],
                bytes,
            ) {
                request_at(bytes) == Err::<(RequestView, int), _>(error::truncated_error())
            } else {
                request_at(bytes) is Ok
            }
        },
        request_at(bytes) matches Ok((request, consumed)) ==> {
            let end = 4 + field_length(bytes[3], bytes);
            &&& request.version == bytes[0]
            &&& protocol::command_byte(request.command) == bytes[1]
            &&& protocol::addr_type_byte(request.addr_type) == bytes[3]
            &&& consumed == end + 2
            &&& request.port == 256 * bytes[end] + bytes[end + 1]
            &&& request.addr.len() == end - if bytes[3] == 0x03 {
                5int
            } else {
                4
            }
            &&& forall|i: int|
                0 <= i < request.addr.len() ==> request.addr[i] == bytes[end - request.addr.len()
                    + i]
        },
{
}

/// The layout of a UDP header, byte by byte: which of them are refused, for
/// what, and where the fields of the others stand.
pub proof fn law_udp_header_layout(bytes: Seq<u8>)
    ensures
        bytes.len() < 4 ==> udp_header_at(bytes) == Err::<(UdpRequestView, int), _>(
            error::truncated_error(),
        ),
        bytes.len() >= 4 ==> {
            if bytes[3] != 0x01 && bytes[3] != 0x03 && bytes[3] != 0x04 {
                udp_header_at(bytes) == Err::<(UdpRequestView, int), _>(
                    ErrorView::Socks(ResponseCode::AddrTypeNotSupported),
                )
            } else if bytes[3] == 0x03 && bytes.len() < 5 || bytes.len() < 6 + field_length(
                bytes[3],
                bytes,
            ) {
                udp_header_at(bytes) == Err::<(UdpRequestView, int), _>(error::truncated_error())
            } else {
                udp_header_at(bytes) is Ok
            }
        },
        udp_header_at(bytes) matches Ok((header, consumed)) ==> {
            let end = 4 + field_length(bytes[3], bytes);
            &&& header.frag == bytes[2]
            &&& protocol::addr_type_byte(header.addr_type) == bytes[3]
            &&& consumed == end + 2
            &&& header.port == 256 * bytes[end] + bytes[end + 1]
            &&& header.addr.len() == end - if bytes[3] == 0x03 {
                5int
            } else {
                4
            }
            &&& forall|i: int|
                0 <= i < header.addr.len() ==> header.addr[i] == bytes[end - header.addr.len() + i]
        },
{
}

/// The layout of an encoded UDP header, byte by byte: three zeros, the address
/// type, the octets in order and the port with its high byte first.
pub proof fn law_encoded_udp_header_layout(
    v4: [u8; 4],
    v6: [u8; 16],
    port: u16,
    flowinfo: u32,
    scope_id: u32,
)
    ensures
        udp_header_bytes(SocketAddr::V4 { ip: v4, port }) == seq![0u8, 0, 0, 0x01] + v4@ + seq![
            (port / 256) as u8,
            (port % 256) as u8,
        ],
        udp_header_bytes(SocketAddr::V6 { ip: v6, port, flowinfo, scope_id }) == seq![
            0u8,
            0,
            0,
            0x04,
        ] + v6@ + seq![(port / 256) as u8, (port % 256) as u8],
{
    assert(udp_header_bytes(SocketAddr::V4 { ip: v4, port }) =~= seq![0u8, 0, 0, 0x01] + v4@ + seq![
        (port / 256) as u8,
        (port % 256) as u8,
    ]);
    assert(udp_header_bytes(SocketAddr::V6 { ip: v6, port, flowinfo, scope_id }) =~= seq![
        0u8,
        0,
        0,
        0x04,
    ] + v6@ + seq![(port / 256) as u8, (port % 256) as u8]);
}

} // verus!
