//! What passes between a client session and the outside world.
//!
//! A session never touches a socket. It asks for one [`Action`] at a time and
//! is told by an [`Event`] what came of it; the specification functions of
//! this module say how a session answers every event in every state.
use vstd::prelude::*;

#[allow(unused_imports)]
use crate::address::TargetView;
#[allow(unused_imports)]
use crate::auth::UserView;
use crate::error::{ErrorView, IoError, IoErrorView, MerinoError};
#[allow(unused_imports)]
use crate::error::{IoErrorKind, ResponseCode};
#[allow(unused_imports)]
use crate::limits::DEFAULT_CONNECT_TIMEOUT;
use crate::net::{IpAddr, SocketAddr};
use crate::protocol::AuthMethods;
#[allow(unused_imports)]
use crate::protocol::{AddrType, RequestView, SockCommand, SOCKS_VERSION, USERPASS_VERSION};
use crate::udp::UdpAssociation;
#[allow(unused_imports)]
use crate::udp::ForwardView;
#[allow(unused_imports)]
use crate::{address, auth, error, net, protocol, reply, udp, wire};

verus! {

// ---------------------------------------------------------------- vocabulary
/// What a session asks the outside world to do.
#[derive(Debug, PartialEq, Eq)]
pub enum Action {
    /// Read exactly this many bytes from the client.
    Read(usize),
    /// Write all of these bytes to the client.
    Write(Vec<u8>),
    /// Shut the client's stream down.
    Shutdown,
    /// Look up the addresses of this `host:port`.
    Resolve(String),
    /// Connect to the first of these addresses that answers, within a time
    /// budget.
    Connect(Vec<SocketAddr>, u128),
    /// Copy bytes between the client and the connected peer, both ways.
    Relay,
    /// Listen for a connection on this address.
    Listen(SocketAddr),
    /// Accept one connection, within a time budget.
    Accept(u128),
    /// Bind a datagram socket to this address.
    BindUdp(SocketAddr),
    /// Wait for a datagram, or for something on the client's stream.
    WaitUdp,
    /// Send a datagram to this address.
    SendTo(Vec<u8>, SocketAddr),
    /// Nothing is left to do: how many bytes came back from the peer, or why
    /// the client could not be served.
    Finished(Result<usize, MerinoError>),
    /// The event did not answer what was asked for; nothing has changed.
    Ignored,
}

/// What a session is told about the outside world.
#[derive(Clone, Debug, PartialEq, Eq)]
pub enum Event {
    /// These bytes were read.
    Bytes(Vec<u8>),
    /// The write, the shutdown or the send succeeded.
    Done,
    /// What was asked for failed.
    Failed(IoError),
    /// The time budget ran out.
    Expired,
    /// The lookup found these addresses.
    Resolved(Vec<SocketAddr>),
    /// The connection to the destination is up.
    Connected,
    /// The socket was bound to this address.
    Bound(SocketAddr),
    /// A connection from this peer was accepted.
    Accepted(SocketAddr),
    /// The relay ended, having copied this many bytes from the client and this
    /// many to it.
    Relayed(u64, u64),
    /// This many bytes came in on the client's stream during an association.
    Control(usize),
    /// A datagram came in.
    Datagram(SocketAddr, Vec<u8>),
}

/// The mathematical content of an [`Action`].
#[verifier::ext_equal]
pub enum ActionView {
    Read(int),
    Write(Seq<u8>),
    Shutdown,
    Resolve(Seq<char>),
    Connect(Seq<SocketAddr>, u128),
    Relay,
    Listen(SocketAddr),
    Accept(u128),
    BindUdp(SocketAddr),
    WaitUdp,
    SendTo(Seq<u8>, SocketAddr),
    Finished(Result<usize, ErrorView>),
    Ignored,
}

/// The mathematical content of an [`Event`].
#[verifier::ext_equal]
pub enum EventView {
    Bytes(Seq<u8>),
    Done,
    Failed(IoErrorView),
    Expired,
    Resolved(Seq<SocketAddr>),
    Connected,
    Bound(SocketAddr),
    Accepted(SocketAddr),
    Relayed(u64, u64),
    Control(usize),
    Datagram(SocketAddr, Seq<u8>),
}

impl View for Action {
    type V = ActionView;

    open spec fn view(&self) -> ActionView {
        match *self {
            Action::Read(n) => ActionView::Read(n as int),
            Action::Write(bytes) => ActionView::Write(bytes@),
            Action::Shutdown => ActionView::Shutdown,
            Action::Resolve(name) => ActionView::Resolve(name@),
            Action::Connect(addrs, budget) => ActionView::Connect(addrs@, budget),
            Action::Relay => ActionView::Relay,
            Action::Listen(addr) => ActionView::Listen(addr),
            Action::Accept(budget) => ActionView::Accept(budget),
            Action::BindUdp(addr) => ActionView::BindUdp(addr),
            Action::WaitUdp => ActionView::WaitUdp,
            Action::SendTo(bytes, addr) => ActionView::SendTo(bytes@, addr),
            Action::Finished(Ok(n)) => ActionView::Finished(Ok(n)),
            Action::Finished(Err(error)) => ActionView::Finished(Err(error@)),
            Action::Ignored => ActionView::Ignored,
        }
    }
}

impl View for Event {
    type V = EventView;

    open spec fn view(&self) -> EventView {
        match *self {
            Event::Bytes(bytes) => EventView::Bytes(bytes@),
            Event::Done => EventView::Done,
            Event::Failed(error) => EventView::Failed(error@),
            Event::Expired => EventView::Expired,
            Event::Resolved(addrs) => EventView::Resolved(addrs@),
            Event::Connected => EventView::Connected,
            Event::Bound(addr) => EventView::Bound(addr),
            Event::Accepted(addr) => EventView::Accepted(addr),
            Event::Relayed(sent, received) => EventView::Relayed(sent, received),
            Event::Control(n) => EventView::Control(n),
            Event::Datagram(from, data) => EventView::Datagram(from, data@),
        }
    }
}

/// What a session is waiting for.
#[derive(Clone, Copy, Debug, PartialEq, Eq)]
pub enum Stage {
    /// To be started.
    Idle,
    /// The version and the number of methods.
    Greeting,
    /// This many methods.
    Methods(u8),
    /// The chosen method to be written.
    Selecting(AuthMethods),
    /// The version and the length of the username.
    Credentials,
    /// A username of this length.
    Username(u8),
    /// The length of the password.
    PasswordLength,
    /// A password of this length.
    Password(u8),
    /// The verdict on the credentials to be written.
    Verdict(bool),
    /// The stream of a client that is turned away to be shut down.
    Rejecting,
    /// The fixed header of the request.
    RequestHeader,
    /// The length of the domain name.
    DomainLength,
    /// An address of this length.
    Address(u8),
    /// The port.
    Port,
    /// The destination of a `CONNECT` to be looked up.
    Resolving,
    /// The destination of a `CONNECT` to answer.
    Connecting,
    /// The reply to a `CONNECT` to be written.
    ConnectReply,
    /// The relay to end.
    Relaying,
    /// The listener of a `BIND` to be bound, for a peer at this address.
    Listening(Option<IpAddr>),
    /// The first reply to a `BIND` to be written.
    BindReply(Option<IpAddr>),
    /// The peer of a `BIND`.
    Accepting(Option<IpAddr>),
    /// The second reply to a `BIND` to be written.
    PeerReply,
    /// The socket of a `UDP ASSOCIATE` to be bound, for a client at this
    /// address.
    BindingUdp(Option<IpAddr>),
    /// The reply to a `UDP ASSOCIATE` to be written.
    UdpReply(Option<IpAddr>),
    /// A datagram, or the end of the association.
    Associated(UdpAssociation),
    /// A datagram to be sent.
    Sending(UdpAssociation),
    /// The destination of a datagram to be looked up.
    LookingUp(UdpAssociation),
    /// Nothing: the session is over.
    Over,
}

/// Whether `stage` belongs to the handshake: greeting, authentication and
/// reading the request.
pub open spec fn in_handshake(stage: Stage) -> bool {
    match stage {
        Stage::Greeting
        | Stage::Methods(_)
        | Stage::Selecting(_)
        | Stage::Credentials
        | Stage::Username(_)
        | Stage::PasswordLength
        | Stage::Password(_)
        | Stage::Verdict(_)
        | Stage::Rejecting
        | Stage::RequestHeader
        | Stage::DomainLength
        | Stage::Address(_)
        | Stage::Port => true,
        _ => false,
    }
}

/// The mathematical content of a session.
#[verifier::ext_equal]
pub struct ClientView {
    /// Who may use the proxy.
    pub users: Seq<UserView>,
    /// The allowed authentication methods.
    pub methods: Seq<u8>,
    /// The configured budget for reaching a destination.
    pub timeout: Option<u128>,
    /// The budget of the negotiation.
    pub handshake_timeout: u128,
    /// The local address of the client's connection.
    pub local_addr: Option<SocketAddr>,
    /// Whether `BIND` is offered.
    pub bind_enabled: bool,
    /// Whether `UDP ASSOCIATE` is offered.
    pub udp_enabled: bool,
    /// The version in the greeting.
    pub socks_version: u8,
    /// The number of methods in the greeting.
    pub auth_nmethods: u8,
    /// The request, once it has been read.
    pub request: Option<RequestView>,
    /// The message read so far, or the payload whose destination is looked up.
    pub held: Seq<u8>,
    /// Whether the session was started with a negotiation, which has a budget.
    pub budgeted: bool,
    /// What the session is waiting for.
    pub stage: Stage,
}

/// Whether the handshake budget applies: during the handshake of a session
/// that was started with a negotiation.
pub open spec fn negotiating(c: ClientView) -> bool {
    c.budgeted && in_handshake(c.stage)
}

// ---------------------------------------------------------------- building blocks
/// The session goes on to `stage`, holding `held`, and asks for `action`.
pub open spec fn next(c: ClientView, stage: Stage, held: Seq<u8>, action: ActionView) -> (
    ClientView,
    ActionView,
) {
    (ClientView { stage, held, ..c }, action)
}

/// The session is over.
pub open spec fn ended(c: ClientView, outcome: Result<usize, ErrorView>) -> (
    ClientView,
    ActionView,
) {
    next(c, Stage::Over, seq![], ActionView::Finished(outcome))
}

/// The session is over because the client could not be served.
pub open spec fn refused(c: ClientView, code: ResponseCode) -> (ClientView, ActionView) {
    ended(c, Err(ErrorView::Socks(code)))
}

/// The session is over because of an I/O error.
pub open spec fn broken(c: ClientView, error: IoErrorView) -> (ClientView, ActionView) {
    ended(c, Err(ErrorView::Io(error)))
}

/// The event does not answer what was asked for.
pub open spec fn ignored(c: ClientView) -> (ClientView, ActionView) {
    (c, ActionView::Ignored)
}

/// The session waits for the request, starting with its fixed header.
pub open spec fn await_request(c: ClientView) -> (ClientView, ActionView) {
    next(c, Stage::RequestHeader, seq![], ActionView::Read(4))
}

/// The session writes a successful reply that advertises `bound`.
pub open spec fn confirm(c: ClientView, stage: Stage, bound: SocketAddr) -> (
    ClientView,
    ActionView,
) {
    next(c, stage, seq![], ActionView::Write(reply::reply_bytes(ResponseCode::Success, bound)))
}

/// The time budget for reaching a destination.
pub open spec fn connect_budget(c: ClientView) -> u128 {
    match c.timeout {
        Some(budget) => budget,
        None => DEFAULT_CONNECT_TIMEOUT,
    }
}

/// The interface that `BIND` and `UDP ASSOCIATE` sockets are bound to: the one
/// the client reached the proxy through, or any where that is unknown.
pub open spec fn interface(c: ClientView) -> IpAddr {
    match c.local_addr {
        Some(addr) => net::ip_of(addr),
        None => IpAddr::V4([0, 0, 0, 0]),
    }
}

/// An ephemeral port on `ip`.
pub open spec fn ephemeral(ip: IpAddr) -> SocketAddr {
    match ip {
        IpAddr::V4(octets) => SocketAddr::V4 { ip: octets, port: 0 },
        IpAddr::V6(octets) => SocketAddr::V6 { ip: octets, port: 0, flowinfo: 0, scope_id: 0 },
    }
}

/// How a request is taken up.
pub open spec fn requested(c: ClientView, request: RequestView) -> (ClientView, ActionView) {
    let c = ClientView { request: Some(request), ..c };
    let expected = address::concrete_ip(request.addr_type, request.addr);
    match request.command {
        SockCommand::Connect => match address::target_of(
            request.addr_type,
            request.addr,
            request.port,
        ) {
            Err(error) => broken(c, error),
            Ok(TargetView::Socket(addr)) => next(
                c,
                Stage::Connecting,
                seq![],
                ActionView::Connect(seq![addr], connect_budget(c)),
            ),
            Ok(TargetView::Lookup(name)) => next(
                c,
                Stage::Resolving,
                seq![],
                ActionView::Resolve(name),
            ),
        },
        SockCommand::Bind => if c.bind_enabled {
            next(
                c,
                Stage::Listening(expected),
                seq![],
                ActionView::Listen(ephemeral(interface(c))),
            )
        } else {
            refused(c, ResponseCode::CommandNotSupported)
        },
        SockCommand::UdpAssosiate => if c.udp_enabled {
            next(
                c,
                Stage::BindingUdp(expected),
                seq![],
                ActionView::BindUdp(ephemeral(interface(c))),
            )
        } else {
            refused(c, ResponseCode::CommandNotSupported)
        },
    }
}

// ---------------------------------------------------------------- events
/// What a session does when bytes were read.
pub open spec fn on_bytes(c: ClientView, bytes: Seq<u8>) -> (ClientView, ActionView) {
    let held = c.held + bytes;
    match c.stage {
        Stage::Greeting => if bytes.len() == 2 {
            let c = ClientView { socks_version: bytes[0], auth_nmethods: bytes[1], ..c };
            if bytes[0] == SOCKS_VERSION {
                next(c, Stage::Methods(bytes[1]), seq![], ActionView::Read(bytes[1] as int))
            } else {
                next(c, Stage::Rejecting, seq![], ActionView::Shutdown)
            }
        } else {
            ignored(c)
        },
        Stage::Methods(n) => if bytes.len() == n {
            let method = auth::chosen_method(c.methods, bytes);
            next(
                c,
                Stage::Selecting(method),
                seq![],
                ActionView::Write(seq![SOCKS_VERSION, protocol::method_byte(method)]),
            )
        } else {
            ignored(c)
        },
        Stage::Credentials => if bytes.len() == 2 {
            next(c, Stage::Username(bytes[1]), held, ActionView::Read(bytes[1] as int))
        } else {
            ignored(c)
        },
        Stage::Username(n) => if bytes.len() == n {
            next(c, Stage::PasswordLength, held, ActionView::Read(1))
        } else {
            ignored(c)
        },
        Stage::PasswordLength => if bytes.len() == 1 {
            next(c, Stage::Password(bytes[0]), held, ActionView::Read(bytes[0] as int))
        } else {
            ignored(c)
        },
        Stage::Password(n) => if bytes.len() == n {
            match wire::userpass_at(held) {
                Err(error) => ended(c, Err(error)),
                Ok((frame, _)) => next(
                    c,
                    Stage::Verdict(auth::granted(c.users, frame)),
                    seq![],
                    ActionView::Write(verdict_bytes(auth::granted(c.users, frame))),
                ),
            }
        } else {
            ignored(c)
        },
        Stage::RequestHeader => if bytes.len() == 4 {
            if bytes[0] != SOCKS_VERSION {
                refused(c, ResponseCode::Failure)
            } else if protocol::command_of(bytes[1] as int) is None {
                refused(c, ResponseCode::CommandNotSupported)
            } else {
                match protocol::addr_type_of(bytes[3] as int) {
                    None => refused(c, ResponseCode::AddrTypeNotSupported),
                    Some(AddrType::Domain) => next(
                        c,
                        Stage::DomainLength,
                        held,
                        ActionView::Read(1),
                    ),
                    Some(AddrType::V4) => next(c, Stage::Address(4), held, ActionView::Read(4)),
                    Some(AddrType::V6) => next(c, Stage::Address(16), held, ActionView::Read(16)),
                }
            }
        } else {
            ignored(c)
        },
        Stage::DomainLength => if bytes.len() == 1 {
            next(c, Stage::Address(bytes[0]), held, ActionView::Read(bytes[0] as int))
        } else {
            ignored(c)
        },
        Stage::Address(n) => if bytes.len() == n {
            next(c, Stage::Port, held, ActionView::Read(2))
        } else {
            ignored(c)
        },
        Stage::Port => if bytes.len() == 2 {
            match wire::request_at(held) {
                Err(error) => ended(c, Err(error)),
                Ok((request, _)) => requested(c, request),
            }
        } else {
            ignored(c)
        },
        _ => ignored(c),
    }
}

/// How the verdict on credentials is written.
pub open spec fn verdict_bytes(access: bool) -> Seq<u8> {
    seq![
        USERPASS_VERSION,
        error::response_byte(
            if access {
                ResponseCode::Success
            } else {
                ResponseCode::Failure
            },
        ),
    ]
}

/// What a session does when a write, a shutdown or a send succeeded.
pub open spec fn on_done(c: ClientView) -> (ClientView, ActionView) {
    match c.stage {
        Stage::Selecting(AuthMethods::UserPass) => next(
            c,
            Stage::Credentials,
            seq![],
            ActionView::Read(2),
        ),
        Stage::Selecting(AuthMethods::NoAuth) => await_request(c),
        Stage::Selecting(AuthMethods::NoMethods) => next(
            c,
            Stage::Rejecting,
            seq![],
            ActionView::Shutdown,
        ),
        Stage::Verdict(true) => await_request(c),
        Stage::Verdict(false) => next(c, Stage::Rejecting, seq![], ActionView::Shutdown),
        Stage::Rejecting => refused(c, ResponseCode::Failure),
        Stage::ConnectReply | Stage::PeerReply => next(
            c,
            Stage::Relaying,
            seq![],
            ActionView::Relay,
        ),
        Stage::BindReply(expected) => next(
            c,
            Stage::Accepting(expected),
            seq![],
            ActionView::Accept(connect_budget(c)),
        ),
        Stage::UdpReply(expected) => next(
            c,
            Stage::Associated(UdpAssociation { expected, client: None }),
            seq![],
            ActionView::WaitUdp,
        ),
        Stage::Sending(association) => next(
            c,
            Stage::Associated(association),
            seq![],
            ActionView::WaitUdp,
        ),
        _ => ignored(c),
    }
}

/// What a session does when what it asked for failed.
///
/// A refused connection is reported as such. A relay whose stream is already
/// closed has ended. An association ends without an error, and a datagram that
/// cannot be delivered is lost.
pub open spec fn on_failed(c: ClientView, error: IoErrorView) -> (ClientView, ActionView) {
    match c.stage {
        Stage::Idle | Stage::Over => ignored(c),
        Stage::Connecting => if error.kind == IoErrorKind::ConnectionRefused {
            refused(c, ResponseCode::ConnectionRefused)
        } else {
            broken(c, error)
        },
        Stage::Relaying => if error.kind == IoErrorKind::NotConnected {
            ended(c, Ok(0))
        } else {
            broken(c, error)
        },
        Stage::Associated(_) => ended(c, Ok(0)),
        Stage::Sending(association) | Stage::LookingUp(association) => next(
            c,
            Stage::Associated(association),
            seq![],
            ActionView::WaitUdp,
        ),
        _ => broken(c, error),
    }
}

/// What a session does when a time budget ran out: it fails where one applies.
pub open spec fn on_expired(c: ClientView) -> (ClientView, ActionView) {
    if negotiating(c) || c.stage is Connecting || c.stage is Accepting {
        refused(c, ResponseCode::TtlExpired)
    } else {
        ignored(c)
    }
}

/// What a session does when a lookup succeeded.
pub open spec fn on_resolved(c: ClientView, addrs: Seq<SocketAddr>) -> (ClientView, ActionView) {
    match c.stage {
        Stage::Resolving => next(
            c,
            Stage::Connecting,
            seq![],
            ActionView::Connect(addrs, connect_budget(c)),
        ),
        Stage::LookingUp(association) => if addrs.len() == 0 {
            next(c, Stage::Associated(association), seq![], ActionView::WaitUdp)
        } else {
            next(c, Stage::Sending(association), seq![], ActionView::SendTo(c.held, addrs[0]))
        },
        _ => ignored(c),
    }
}

/// What a session does when the destination answered.
pub open spec fn on_connected(c: ClientView) -> (ClientView, ActionView) {
    match c.stage {
        Stage::Connecting => confirm(c, Stage::ConnectReply, reply::unspecified()),
        _ => ignored(c),
    }
}

/// What a session does when a socket was bound.
pub open spec fn on_bound(c: ClientView, addr: SocketAddr) -> (ClientView, ActionView) {
    match c.stage {
        Stage::Listening(expected) => confirm(c, Stage::BindReply(expected), addr),
        Stage::BindingUdp(expected) => confirm(c, Stage::UdpReply(expected), addr),
        _ => ignored(c),
    }
}

/// What a session does when a peer connected: it has to be the expected one.
pub open spec fn on_accepted(c: ClientView, peer: SocketAddr) -> (ClientView, ActionView) {
    match c.stage {
        Stage::Accepting(Some(expected)) => if expected == net::ip_of(peer) {
            confirm(c, Stage::PeerReply, peer)
        } else {
            refused(c, ResponseCode::RuleFailure)
        },
        Stage::Accepting(None) => confirm(c, Stage::PeerReply, peer),
        _ => ignored(c),
    }
}

/// What a session does when the relay ended.
pub open spec fn on_relayed(c: ClientView, received: u64) -> (ClientView, ActionView) {
    match c.stage {
        Stage::Relaying => ended(c, Ok(received as usize)),
        _ => ignored(c),
    }
}

/// What a session does when its stream is heard from during an association:
/// the end of the stream ends the association, anything else is ignored.
pub open spec fn on_control(c: ClientView, n: usize) -> (ClientView, ActionView) {
    match c.stage {
        Stage::Associated(association) => if n == 0 {
            ended(c, Ok(0))
        } else {
            next(c, Stage::Associated(association), seq![], ActionView::WaitUdp)
        },
        _ => ignored(c),
    }
}

/// What a session does when a datagram came in.
pub open spec fn on_datagram(c: ClientView, from: SocketAddr, data: Seq<u8>) -> (
    ClientView,
    ActionView,
) {
    match c.stage {
        Stage::Associated(association) => {
            let (after, forward) = udp::relayed(association, from, data);
            match forward {
                ForwardView::Drop => next(
                    c,
                    Stage::Associated(after),
                    seq![],
                    ActionView::WaitUdp,
                ),
                ForwardView::Send(bytes, to) => next(
                    c,
                    Stage::Sending(after),
                    seq![],
                    ActionView::SendTo(bytes, to),
                ),
                ForwardView::Lookup(name, payload) => next(
                    c,
                    Stage::LookingUp(after),
                    payload,
                    ActionView::Resolve(name),
                ),
            }
        },
        _ => ignored(c),
    }
}

/// How a session answers an event.
pub open spec fn step(c: ClientView, event: EventView) -> (ClientView, ActionView) {
    match event {
        EventView::Bytes(bytes) => on_bytes(c, bytes),
        EventView::Done => on_done(c),
        EventView::Failed(error) => on_failed(c, error),
        EventView::Expired => on_expired(c),
        EventView::Resolved(addrs) => on_resolved(c, addrs),
        EventView::Connected => on_connected(c),
        EventView::Bound(addr) => on_bound(c, addr),
        EventView::Accepted(peer) => on_accepted(c, peer),
        EventView::Relayed(_, received) => on_relayed(c, received),
        EventView::Control(n) => on_control(c, n),
        EventView::Datagram(from, data) => on_datagram(c, from, data),
    }
}

/// How a session starts: it waits for the greeting.
pub open spec fn started(c: ClientView) -> (ClientView, ActionView) {
    next(
        ClientView { request: None, budgeted: true, ..c },
        Stage::Greeting,
        seq![],
        ActionView::Read(2),
    )
}

/// An action means just what it carries: the very bytes, addresses, names and
/// budgets.
pub proof fn law_actions_mean_what_they_carry(
    n: usize,
    bytes: Vec<u8>,
    name: String,
    addrs: Vec<SocketAddr>,
    budget: u128,
    addr: SocketAddr,
    error: MerinoError,
)
    ensures
        Action::Read(n)@ == ActionView::Read(n as int),
        Action::Write(bytes)@ == ActionView::Write(bytes@),
        Action::Shutdown@ == ActionView::Shutdown,
        Action::Resolve(name)@ == ActionView::Resolve(name@),
        Action::Connect(addrs, budget)@ == ActionView::Connect(addrs@, budget),
        Action::Relay@ == ActionView::Relay,
        Action::Listen(addr)@ == ActionView::Listen(addr),
        Action::Accept(budget)@ == ActionView::Accept(budget),
        Action::BindUdp(addr)@ == ActionView::BindUdp(addr),
        Action::WaitUdp@ == ActionView::WaitUdp,
        Action::SendTo(bytes, addr)@ == ActionView::SendTo(bytes@, addr),
        Action::Finished(Ok(n))@ == ActionView::Finished(Ok(n)),
        Action::Finished(Err(error))@ == ActionView::Finished(Err(error@)),
        Action::Ignored@ == ActionView::Ignored,
{
}

/// An event means just what it carries.
pub proof fn law_events_mean_what_they_carry(
    n: usize,
    bytes: Vec<u8>,
    error: IoError,
    addrs: Vec<SocketAddr>,
    addr: SocketAddr,
    sent: u64,
    received: u64,
)
    ensures
        Event::Bytes(bytes)@ == EventView::Bytes(bytes@),
        Event::Done@ == EventView::Done,
        Event::Failed(error)@ == EventView::Failed(
            IoErrorView { kind: error.kind, message: error.message@ },
        ),
        Event::Expired@ == EventView::Expired,
        Event::Resolved(addrs)@ == EventView::Resolved(addrs@),
        Event::Connected@ == EventView::Connected,
        Event::Bound(addr)@ == EventView::Bound(addr),
        Event::Accepted(addr)@ == EventView::Accepted(addr),
        Event::Relayed(sent, received)@ == EventView::Relayed(sent, received),
        Event::Control(n)@ == EventView::Control(n),
        Event::Datagram(addr, bytes)@ == EventView::Datagram(addr, bytes@),
{
}

} // verus!
