//! Relaying datagrams for a `UDP ASSOCIATE` request.
use vstd::prelude::*;
use vstd::slice::{slice_subrange, slice_to_vec};

use crate::address::{addr_to_socket, Target, TargetView};
use crate::net::{IpAddr, SocketAddr};
#[allow(unused_imports)]
use crate::protocol::{AddrType, UdpRequestView};
use crate::wire::{encode_udp_header, parse_udp_header, push_octets};
#[allow(unused_imports)]
use crate::{address, net, wire};

verus! {

/// Who takes part in an association.
#[derive(Clone, Copy, Debug, PartialEq, Eq)]
pub struct UdpAssociation {
    /// The address the client declared it would send from, if it named one.
    pub expected: Option<IpAddr>,
    /// Where the client sends from, once it has sent something.
    pub client: Option<SocketAddr>,
}

/// What becomes of a datagram.
#[derive(Clone, Debug, PartialEq, Eq)]
pub enum Forward {
    /// It is not relayed.
    Drop,
    /// These bytes are sent to this socket.
    Send(Vec<u8>, SocketAddr),
    /// These bytes are sent once this `host:port` has been looked up.
    Lookup(String, Vec<u8>),
}

/// The mathematical content of a [`Forward`].
#[verifier::ext_equal]
pub enum ForwardView {
    Drop,
    Send(Seq<u8>, SocketAddr),
    Lookup(Seq<char>, Seq<u8>),
}

impl View for Forward {
    type V = ForwardView;

    open spec fn view(&self) -> ForwardView {
        match *self {
            Forward::Drop => ForwardView::Drop,
            Forward::Send(bytes, to) => ForwardView::Send(bytes@, to),
            Forward::Lookup(name, bytes) => ForwardView::Lookup(name@, bytes@),
        }
    }
}

/// What becomes of a datagram that the client sent: the payload goes to the
/// destination in its header. Fragments, and headers that cannot be read, are
/// dropped.
pub open spec fn outbound(data: Seq<u8>) -> ForwardView {
    match wire::udp_header_at(data) {
        Err(_) => ForwardView::Drop,
        Ok((header, consumed)) => if header.frag != 0 {
            ForwardView::Drop
        } else {
            match address::target_of(header.addr_type, header.addr, header.port) {
                Err(_) => ForwardView::Drop,
                Ok(TargetView::Socket(to)) => ForwardView::Send(data.skip(consumed), to),
                Ok(TargetView::Lookup(name)) => ForwardView::Lookup(name, data.skip(consumed)),
            }
        },
    }
}

/// Whether a datagram from `from` is one that the client sent.
///
/// The first datagram identifies the client, unless it contradicts the address
/// the client declared.
pub open spec fn sent_by_client(association: UdpAssociation, from: SocketAddr) -> bool {
    match (association.client, association.expected) {
        (Some(client), _) => client == from,
        (None, Some(expected)) => expected == net::ip_of(from),
        (None, None) => true,
    }
}

/// What becomes of a datagram from `from`, and of the association.
///
/// What the client sends goes out. What anyone else sends goes to the client
/// behind a header with the sender's address; while the client is unknown, it
/// is dropped.
pub open spec fn relayed(association: UdpAssociation, from: SocketAddr, data: Seq<u8>) -> (
    UdpAssociation,
    ForwardView,
) {
    if sent_by_client(association, from) {
        (UdpAssociation { client: Some(from), ..association }, outbound(data))
    } else {
        match association.client {
            Some(client) => (
                association,
                ForwardView::Send(wire::udp_header_bytes(from) + data, client),
            ),
            None => (association, ForwardView::Drop),
        }
    }
}

impl UdpAssociation {
    /// An association whose client has not sent anything yet.
    pub fn new(expected: Option<IpAddr>) -> (association: UdpAssociation)
        ensures
            association == (UdpAssociation { expected, client: None }),
    {
        UdpAssociation { expected, client: None }
    }

    /// Decide what becomes of a datagram.
    pub fn on_datagram(&mut self, from: SocketAddr, data: &[u8]) -> (forward: Forward)
        ensures
            (*final(self), forward@) == relayed(*old(self), from, data@),
    {
        match self.client {
            None => {
                if let Some(expected) = self.expected {
                    if !expected.same(&from.ip()) {
                        return Forward::Drop;
                    }
                }
                self.client = Some(from);
            },
            Some(client) => {
                if !client.same(&from) {
                    let mut out = encode_udp_header(from);
                    push_octets(&mut out, data);
                    return Forward::Send(out, client);
                }
            },
        }
        forward_outbound(data)
    }
}

/// Decide where a datagram of the client goes.
fn forward_outbound(data: &[u8]) -> (forward: Forward)
    ensures
        forward@ == outbound(data@),
{
    let (header, consumed) = match parse_udp_header(data) {
        Ok(parsed) => parsed,
        Err(_) => return Forward::Drop,
    };
    if header.frag != 0 {
        return Forward::Drop;
    }
    proof {
        wire::law_consumed_never_exceeds_input(data@);
    }
    let payload = slice_to_vec(slice_subrange(data, consumed, data.len()));
    assert(payload@ =~= data@.skip(consumed as int));
    match addr_to_socket(&header.addr_type, header.addr, header.port) {
        Ok(Target::Socket(to)) => Forward::Send(payload, to),
        Ok(Target::Lookup(name)) => Forward::Lookup(name, payload),
        Err(_) => Forward::Drop,
    }
}

// ---------------------------------------------------------------- laws
/// The association after a run of datagrams, each with its source.
pub open spec fn after_datagrams(
    association: UdpAssociation,
    datagrams: Seq<(SocketAddr, Seq<u8>)>,
) -> UdpAssociation
    decreases datagrams.len(),
{
    if datagrams.len() == 0 {
        association
    } else {
        let (from, data) = datagrams.last();
        relayed(after_datagrams(association, datagrams.drop_last()), from, data).0
    }
}

/// Once the client is known it stays the same, whatever arrives; what it
/// declared never changes; and a client that declared an address is only ever
/// found at that address.
pub proof fn law_client_is_pinned(
    association: UdpAssociation,
    datagrams: Seq<(SocketAddr, Seq<u8>)>,
)
    ensures
        association.client is Some ==> after_datagrams(association, datagrams) == association,
        after_datagrams(association, datagrams).expected == association.expected,
        association.client is None ==> {
            &&& after_datagrams(association, datagrams).client matches Some(client) ==> {
                &&& association.expected matches Some(expected) ==> net::ip_of(client) == expected
                &&& exists|i: int| 0 <= i < datagrams.len() && (#[trigger] datagrams[i]).0 == client
            }
        },
    decreases datagrams.len(),
{
    if datagrams.len() > 0 {
        let earlier = datagrams.drop_last();
        law_client_is_pinned(association, earlier);
        if association.client is None {
            let before = after_datagrams(association, earlier);
            if let Some(client) = before.client {
                let i = choose|i: int|
                    0 <= i < earlier.len() && (#[trigger] earlier[i]).0 == client;
                assert(datagrams[i].0 == client);
            } else {
                assert(datagrams[datagrams.len() - 1] == datagrams.last());
            }
        }
    }
}

/// The client's payload arrives unchanged: what it sends with an unfragmented
/// header for an IP destination goes to exactly that address and port, and
/// nothing but the payload is sent. A header for a name leads to a lookup of
/// that name, with the payload kept.
pub proof fn law_client_payload_is_relayed(
    association: UdpAssociation,
    from: SocketAddr,
    header: UdpRequestView,
    reserved: (u8, u8),
    payload: Seq<u8>,
)
    requires
        sent_by_client(association, from),
        header.frag == 0,
        wire::addr_fits(header.addr_type, header.addr),
    ensures
        ({
            let data = wire::udp_request_bytes(header, reserved) + payload;
            match relayed(association, from, data).1 {
                ForwardView::Send(bytes, to) => {
                    &&& bytes == payload
                    &&& header.addr_type == wire::addr_type_of_socket(to)
                    &&& header.addr == net::octets_of(net::ip_of(to))
                    &&& header.port == net::port_of(to)
                },
                ForwardView::Lookup(name, bytes) => {
                    &&& bytes == payload
                    &&& header.addr_type == AddrType::Domain
                    &&& address::target_of(header.addr_type, header.addr, header.port) == Ok::<
                        _,
                        crate::error::IoErrorView,
                    >(TargetView::Lookup(name))
                },
                ForwardView::Drop => false,
            }
        }),
{
    let bytes = wire::udp_request_bytes(header, reserved);
    wire::law_udp_header_round_trip(header, reserved, payload);
    address::law_well_formed_address_has_a_target(header.addr_type, header.addr, header.port);
    assert((bytes + payload).skip(bytes.len() as int) =~= payload);
}

/// A fragment is never relayed.
pub proof fn law_fragments_are_dropped(
    association: UdpAssociation,
    from: SocketAddr,
    data: Seq<u8>,
)
    requires
        sent_by_client(association, from),
        data.len() >= 4,
        data[2] != 0,
    ensures
        relayed(association, from, data).1 == ForwardView::Drop,
{
}

/// What anyone else sends reaches the client, and only the client, behind a
/// header from which it can read who sent it; the payload is what was sent.
pub proof fn law_reply_reaches_the_client(
    association: UdpAssociation,
    client: SocketAddr,
    from: SocketAddr,
    payload: Seq<u8>,
)
    requires
        association.client == Some(client),
        from != client,
    ensures
        relayed(association, from, payload).1 matches ForwardView::Send(bytes, to) && {
            &&& to == client
            &&& wire::udp_header_at(bytes) matches Ok((header, consumed)) && {
                &&& header.frag == 0
                &&& header.addr_type == wire::addr_type_of_socket(from)
                &&& header.addr == net::octets_of(net::ip_of(from))
                &&& header.port == net::port_of(from)
                &&& bytes.skip(consumed) == payload
            }
        },
{
    wire::law_encoded_udp_header_is_read_back(from, payload);
}

/// Who the client is: where it is known, only what comes from there is its
/// own; where it is not, the first datagram is, unless the client declared
/// another IP address. What is not the client's own never changes the
/// association, and what is makes its sender the client.
pub proof fn law_who_the_client_is(association: UdpAssociation, from: SocketAddr, data: Seq<u8>)
    ensures
        association.client matches Some(client) ==> (sent_by_client(association, from) <==> from
            == client),
        association.client is None && association.expected is None ==> sent_by_client(
            association,
            from,
        ),
        association.client is None && association.expected is Some ==> (sent_by_client(
            association,
            from,
        ) <==> association.expected == Some(net::ip_of(from))),
        sent_by_client(association, from) ==> relayed(association, from, data).0.client == Some(
            from,
        ),
        !sent_by_client(association, from) ==> relayed(association, from, data).0 == association,
        relayed(association, from, data).0.expected == association.expected,
        association.client is None && !sent_by_client(association, from) ==> relayed(
            association,
            from,
            data,
        ).1 == ForwardView::Drop,
{
}

} // verus!
