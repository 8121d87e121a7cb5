//! The session of a single client.
use std::sync::Arc;

use vstd::prelude::*;

use crate::address::{addr_to_socket, expected_ip, Target};
use crate::auth::{available_methods, check_credentials, choose_method, is_known, User};
use crate::error::{connect_timeout_error, IoError, IoErrorKind, MerinoError, ResponseCode};
use crate::limits::{DEFAULT_CONNECT_TIMEOUT, DEFAULT_HANDSHAKE_TIMEOUT};
use crate::net::{IpAddr, SocketAddr};
use crate::protocol::{
    AddrType, AuthMethods, SOCKSReq, SockCommand, SOCKS_VERSION, USERPASS_VERSION,
};
use crate::reply::SocksReply;
#[allow(unused_imports)]
use crate::session::{ActionView, ClientView, EventView};
use crate::session::{Action, Event, Stage};
use crate::udp::{Forward, UdpAssociation};
use crate::wire::{parse_request, parse_userpass, push_octets};
#[allow(unused_imports)]
use crate::{address, auth, net, protocol, reply, session};

verus! {

/// The session of a single client: its configuration and how far it has come.
///
/// The session holds no socket. [`SOCKClient::init`] gives the first action to
/// perform, and [`SOCKClient::on_event`] the one after each event.
pub struct SOCKClient {
    auth_nmethods: u8,
    auth_methods: Arc<Vec<u8>>,
    authed_users: Arc<Vec<User>>,
    socks_version: u8,
    timeout: Option<u128>,
    handshake_timeout: u128,
    /// Local address of the client-facing connection, when known. Used as the
    /// interface to bind `BIND` listeners and `UDP ASSOCIATE` sockets on.
    local_addr: Option<SocketAddr>,
    bind_enabled: bool,
    udp_enabled: bool,
    request: Option<SOCKSReq>,
    held: Vec<u8>,
    budgeted: bool,
    stage: Stage,
}

impl View for SOCKClient {
    type V = ClientView;

    closed spec fn view(&self) -> ClientView {
        ClientView {
            users: auth::user_views(self.authed_users@),
            methods: self.auth_methods@,
            timeout: self.timeout,
            handshake_timeout: self.handshake_timeout,
            local_addr: self.local_addr,
            bind_enabled: self.bind_enabled,
            udp_enabled: self.udp_enabled,
            socks_version: self.socks_version,
            auth_nmethods: self.auth_nmethods,
            request: match self.request {
                Some(request) => Some(request@),
                None => None,
            },
            held: self.held@,
            budgeted: self.budgeted,
            stage: self.stage,
        }
    }
}

/// A session that has not been started: only `CONNECT` is offered, and the
/// handshake budget is the default one.
pub open spec fn fresh(
    users: Seq<auth::UserView>,
    methods: Seq<u8>,
    timeout: Option<u128>,
) -> ClientView {
    ClientView {
        users,
        methods,
        timeout,
        handshake_timeout: DEFAULT_HANDSHAKE_TIMEOUT,
        local_addr: None,
        bind_enabled: false,
        udp_enabled: false,
        socks_version: 0,
        auth_nmethods: 0,
        request: None,
        held: seq![],
        budgeted: false,
        stage: Stage::Idle,
    }
}

impl SOCKClient {
    /// Create a new SOCKClient
    ///
    /// `timeout` bounds reaching a destination, in nanoseconds.
    pub fn new(
        authed_users: Arc<Vec<User>>,
        auth_methods: Arc<Vec<u8>>,
        timeout: Option<u128>,
    ) -> (client: SOCKClient)
        ensures
            client@ == fresh(auth::user_views(authed_users@), auth_methods@, timeout),
    {
        let client = SOCKClient {
            auth_nmethods: 0,
            socks_version: 0,
            authed_users,
            auth_methods,
            timeout,
            handshake_timeout: DEFAULT_HANDSHAKE_TIMEOUT,
            local_addr: None,
            bind_enabled: false,
            udp_enabled: false,
            request: None,
            held: Vec::new(),
            budgeted: false,
            stage: Stage::Idle,
        };
        assert(client@ =~= fresh(auth::user_views(authed_users@), auth_methods@, timeout));
        client
    }

    /// Create a new SOCKClient with no auth
    pub fn new_no_auth(timeout: Option<u128>) -> (client: SOCKClient)
        ensures
            client@ == fresh(seq![], seq![protocol::method_byte(AuthMethods::NoAuth)], timeout),
    {
        let authed_users: Arc<Vec<User>> = Arc::new(Vec::new());
        let auth_methods: Arc<Vec<u8>> = Arc::new(vec![AuthMethods::NoAuth.code()]);
        assert(auth::user_views(authed_users@) =~= seq![]);
        assert(auth_methods@ =~= seq![protocol::method_byte(AuthMethods::NoAuth)]);
        SOCKClient::new(authed_users, auth_methods, timeout)
    }

    /// Record the local address of the client-facing connection.
    ///
    /// `BIND` and `UDP ASSOCIATE` bind their listeners on the same interface
    /// the client reached the proxy through, so the advertised `BND.ADDR` is
    /// reachable.
    pub fn set_local_addr(&mut self, local_addr: Option<SocketAddr>)
        ensures
            final(self)@ == (ClientView { local_addr, ..old(self)@ }),
    {
        self.local_addr = local_addr;
    }

    /// Override the maximum time allowed for the SOCKS5 handshake.
    pub fn set_handshake_timeout(&mut self, timeout: u128)
        ensures
            final(self)@ == (ClientView { handshake_timeout: timeout, ..old(self)@ }),
    {
        self.handshake_timeout = timeout;
    }

    /// Offer `BIND` and `UDP ASSOCIATE`, or answer them as not supported.
    pub fn set_optional_commands(&mut self, bind: bool, udp_associate: bool)
        ensures
            final(self)@ == (ClientView {
                bind_enabled: bind,
                udp_enabled: udp_associate,
                ..old(self)@
            }),
    {
        self.bind_enabled = bind;
        self.udp_enabled = udp_associate;
    }

    /// The time allowed for the SOCKS5 handshake.
    pub fn handshake_timeout(&self) -> (budget: u128)
        ensures
            budget == self@.handshake_timeout,
    {
        self.handshake_timeout
    }

    /// The version the client greeted with, zero before that.
    pub fn socks_version(&self) -> (version: u8)
        ensures
            version == self@.socks_version,
    {
        self.socks_version
    }

    /// The number of methods the client offered, zero before that.
    pub fn auth_nmethods(&self) -> (nmethods: u8)
        ensures
            nmethods == self@.auth_nmethods,
    {
        self.auth_nmethods
    }

    /// The allowed authentication methods.
    pub fn auth_methods(&self) -> (methods: &[u8])
        ensures
            methods@ == self@.methods,
    {
        self.auth_methods.as_slice()
    }

    /// The request of the client, once it has been read.
    pub fn request(&self) -> (request: Option<&SOCKSReq>)
        ensures
            match request {
                Some(request) => self@.request == Some(request@),
                None => self@.request is None,
            },
    {
        match &self.request {
            Some(request) => Some(request),
            None => None,
        }
    }

    /// Whether the handshake budget applies now.
    ///
    /// Only the negotiation that [`SOCKClient::init`] starts - greeting,
    /// authentication and reading the request - is subject to it. The relay itself is intentionally unbounded so
    /// long-lived proxied connections are not torn down after the handshake
    /// budget elapses.
    pub fn is_negotiating(&self) -> (negotiating: bool)
        ensures
            negotiating == session::negotiating(self@),
    {
        self.budgeted && is_handshake(self.stage)
    }

    /// Check if username + password pair are valid.
    pub fn authed(&self, user: &User) -> (known: bool)
        ensures
            known == self@.users.contains(user@),
    {
        is_known(&self.authed_users, user)
    }

    /// The offered methods that are allowed, in the order they were offered.
    pub fn get_avalible_methods(&self, offered: &[u8]) -> (methods: Vec<u8>)
        ensures
            methods@ == auth::common_methods(self@.methods, offered@),
    {
        available_methods(self.auth_methods.as_slice(), offered)
    }

    /// Interface the `BIND` / `UDP ASSOCIATE` sockets should be bound to.
    ///
    /// Prefers the local address of the client-facing connection so the
    /// advertised `BND.ADDR` is reachable by the client; falls back to the
    /// unspecified IPv4 address when it is unknown.
    pub fn local_interface(&self) -> (ip: IpAddr)
        ensures
            ip == session::interface(self@),
    {
        match self.local_addr {
            Some(addr) => addr.ip(),
            None => {
                let any: [u8; 4] = [0, 0, 0, 0];
                assert(self@.local_addr is None ==> any =~= session::interface(self@)->V4_0);
                IpAddr::V4(any)
            },
        }
    }

    // ------------------------------------------------------------ moving on
    /// Go on to `stage` with nothing held.
    fn go(&mut self, stage: Stage, action: Action) -> (next: Action)
        ensures
            (final(self)@, next@) == session::next(old(self)@, stage, seq![], action@),
    {
        self.held = Vec::new();
        self.stage = stage;
        assert(self@ =~= (ClientView { stage, held: seq![], ..old(self)@ }));
        action
    }

    /// Go on to `stage` and hold `bytes` too.
    fn hold(&mut self, bytes: &Vec<u8>, stage: Stage, action: Action) -> (next: Action)
        ensures
            (final(self)@, next@) == session::next(
                old(self)@,
                stage,
                old(self)@.held + bytes@,
                action@,
            ),
    {
        push_octets(&mut self.held, bytes.as_slice());
        self.stage = stage;
        assert(self@ =~= (ClientView { stage, held: old(self)@.held + bytes@, ..old(self)@ }));
        action
    }

    /// End with `error`.
    fn fail(&mut self, error: MerinoError) -> (next: Action)
        ensures
            (final(self)@, next@) == session::ended(old(self)@, Err(error@)),
    {
        self.go(Stage::Over, Action::Finished(Err(error)))
    }

    /// End with a response code.
    fn refuse(&mut self, code: ResponseCode) -> (next: Action)
        ensures
            (final(self)@, next@) == session::refused(old(self)@, code),
    {
        self.fail(MerinoError::Socks(code))
    }

    /// End well.
    fn finish(&mut self, received: usize) -> (next: Action)
        ensures
            (final(self)@, next@) == session::ended(old(self)@, Ok(received)),
    {
        self.go(Stage::Over, Action::Finished(Ok(received)))
    }

    /// Write a successful reply that advertises `bound`.
    fn confirm(&mut self, stage: Stage, bound: SocketAddr) -> (next: Action)
        ensures
            (final(self)@, next@) == session::confirm(old(self)@, stage, bound),
    {
        let reply = SocksReply::with_addr(ResponseCode::Success, bound);
        self.go(stage, Action::Write(reply.into_bytes()))
    }

    /// The time budget for reaching a destination.
    fn connect_budget(&self) -> (budget: u128)
        ensures
            budget == session::connect_budget(self@),
    {
        match self.timeout {
            Some(budget) => budget,
            None => DEFAULT_CONNECT_TIMEOUT,
        }
    }

    /// An ephemeral port on the local interface.
    fn ephemeral(&self) -> (addr: SocketAddr)
        ensures
            addr == session::ephemeral(session::interface(self@)),
    {
        match self.local_interface() {
            IpAddr::V4(ip) => SocketAddr::V4 { ip, port: 0 },
            IpAddr::V6(ip) => SocketAddr::V6 { ip, port: 0, flowinfo: 0, scope_id: 0 },
        }
    }

    // ------------------------------------------------------------ starting
    /// Start the session: negotiate (bounded by the handshake timeout) and
    /// then relay.
    pub fn init(&mut self) -> (next: Action)
        ensures
            (final(self)@, next@) == session::started(old(self)@),
    {
        self.request = None;
        self.budgeted = true;
        self.go(Stage::Greeting, Action::Read(2))
    }

    /// Read a request from the stream and handle it.
    ///
    /// [`SOCKClient::init`] does the same at the end of the negotiation. Here no
    /// handshake budget applies.
    pub fn handle_client(&mut self) -> (next: Action)
        ensures
            (final(self)@, next@) == session::await_request(
                ClientView { request: None, budgeted: false, ..old(self)@ },
            ),
    {
        self.request = None;
        self.budgeted = false;
        self.go(Stage::RequestHeader, Action::Read(4))
    }

    /// Handle an already-parsed request (connect + relay).
    pub fn handle_request(&mut self, req: SOCKSReq) -> (next: Action)
        ensures
            (final(self)@, next@) == session::requested(old(self)@, req@),
    {
        let expected = expected_ip(&req.addr_type, req.addr.as_slice());
        let command = req.command;
        let target = addr_to_socket(&req.addr_type, req.addr.as_slice(), req.port);
        self.request = Some(req);
        let ghost c = ClientView { request: Some(req@), ..old(self)@ };
        assert(self@ =~= c);
        match command {
            // Use the Proxy to connect to the specified addr/port
            SockCommand::Connect => match target {
                Ok(Target::Socket(addr)) => {
                    let budget: u128 = self.connect_budget();
                    let addrs = vec![addr];
                    assert(addrs@ =~= seq![addr]);
                    self.go(Stage::Connecting, Action::Connect(addrs, budget))
                },
                Ok(Target::Lookup(name)) => self.go(Stage::Resolving, Action::Resolve(name)),
                Err(error) => self.fail(MerinoError::Io(error)),
            },
            // Listen for a single inbound connection and relay it back.
            SockCommand::Bind => {
                if !self.bind_enabled {
                    return self.refuse(ResponseCode::CommandNotSupported);
                }
                let addr = self.ephemeral();
                self.go(Stage::Listening(expected), Action::Listen(addr))
            },
            // Relay UDP datagrams for the lifetime of the control connection.
            SockCommand::UdpAssosiate => {
                if !self.udp_enabled {
                    return self.refuse(ResponseCode::CommandNotSupported);
                }
                let addr = self.ephemeral();
                self.go(Stage::BindingUdp(expected), Action::BindUdp(addr))
            },
        }
    }

    // ------------------------------------------------------------ events
    /// Answer an event.
    pub fn on_event(&mut self, event: Event) -> (next: Action)
        ensures
            (final(self)@, next@) == session::step(old(self)@, event@),
    {
        match event {
            Event::Bytes(bytes) => self.on_bytes(&bytes),
            Event::Done => self.on_done(),
            Event::Failed(error) => self.on_failed(error),
            Event::Expired => self.on_expired(),
            Event::Resolved(addrs) => self.on_resolved(addrs),
            Event::Connected => self.on_connected(),
            Event::Bound(addr) => self.on_bound(addr),
            Event::Accepted(peer) => self.on_accepted(peer),
            Event::Relayed(_, received) => self.on_relayed(received),
            Event::Control(n) => self.on_control(n),
            Event::Datagram(from, data) => self.on_datagram(from, &data),
        }
    }

    /// Take in bytes that were read.
    fn on_bytes(&mut self, bytes: &Vec<u8>) -> (next: Action)
        ensures
            (final(self)@, next@) == session::on_bytes(old(self)@, bytes@),
    {
        match self.stage {
            Stage::Greeting => self.on_greeting(bytes),
            Stage::Methods(n) => {
                if bytes.len() != n as usize {
                    return Action::Ignored;
                }
                let method = choose_method(self.auth_methods.as_slice(), bytes.as_slice());
                let answer = vec![SOCKS_VERSION, method.code()];
                assert(answer@ =~= seq![SOCKS_VERSION, protocol::method_byte(method)]);
                self.go(Stage::Selecting(method), Action::Write(answer))
            },
            Stage::Credentials => {
                if bytes.len() != 2 {
                    return Action::Ignored;
                }
                let ulen: u8 = bytes[1];
                self.hold(bytes, Stage::Username(ulen), Action::Read(ulen as usize))
            },
            Stage::Username(n) => {
                if bytes.len() != n as usize {
                    return Action::Ignored;
                }
                self.hold(bytes, Stage::PasswordLength, Action::Read(1))
            },
            Stage::PasswordLength => {
                if bytes.len() != 1 {
                    return Action::Ignored;
                }
                let plen: u8 = bytes[0];
                self.hold(bytes, Stage::Password(plen), Action::Read(plen as usize))
            },
            Stage::Password(n) => {
                if bytes.len() != n as usize {
                    return Action::Ignored;
                }
                self.on_credentials(bytes)
            },
            Stage::RequestHeader => self.on_request_header(bytes),
            Stage::DomainLength => {
                if bytes.len() != 1 {
                    return Action::Ignored;
                }
                let dlen: u8 = bytes[0];
                self.hold(bytes, Stage::Address(dlen), Action::Read(dlen as usize))
            },
            Stage::Address(n) => {
                if bytes.len() != n as usize {
                    return Action::Ignored;
                }
                self.hold(bytes, Stage::Port, Action::Read(2))
            },
            Stage::Port => {
                if bytes.len() != 2 {
                    return Action::Ignored;
                }
                self.on_request(bytes)
            },
            _ => Action::Ignored,
        }
    }

    /// Take in the version and the number of methods.
    fn on_greeting(&mut self, bytes: &Vec<u8>) -> (next: Action)
        requires
            old(self)@.stage is Greeting,
        ensures
            (final(self)@, next@) == session::on_bytes(old(self)@, bytes@),
    {
        if bytes.len() != 2 {
            return Action::Ignored;
        }
        self.socks_version = bytes[0];
        self.auth_nmethods = bytes[1];
        if self.socks_version == SOCKS_VERSION {
            let n: u8 = self.auth_nmethods;
            self.go(Stage::Methods(n), Action::Read(n as usize))
        } else {
            self.go(Stage::Rejecting, Action::Shutdown)
        }
    }

    /// Take in the end of the credentials and judge them.
    ///
    /// The assembled frame goes through the parser as a whole, so the version
    /// of the sub-negotiation is validated in exactly one place.
    fn on_credentials(&mut self, bytes: &Vec<u8>) -> (next: Action)
        requires
            old(self)@.stage matches Stage::Password(n) && bytes@.len() == n,
        ensures
            (final(self)@, next@) == session::on_bytes(old(self)@, bytes@),
    {
        let mut frame: Vec<u8> = Vec::new();
        push_octets(&mut frame, self.held.as_slice());
        push_octets(&mut frame, bytes.as_slice());
        assert(frame@ =~= old(self)@.held + bytes@);
        match parse_userpass(frame.as_slice()) {
            Ok((parsed, _)) => {
                let access = check_credentials(&self.authed_users, &parsed);
                let code = if access {
                    ResponseCode::Success
                } else {
                    ResponseCode::Failure
                };
                let answer = vec![USERPASS_VERSION, code.code()];
                assert(answer@ =~= session::verdict_bytes(access));
                self.go(Stage::Verdict(access), Action::Write(answer))
            },
            Err(error) => self.fail(error),
        }
    }

    /// Take in the fixed header of the request.
    ///
    /// Unsupported commands and address types are rejected before the
    /// variable-length body is read.
    fn on_request_header(&mut self, bytes: &Vec<u8>) -> (next: Action)
        requires
            old(self)@.stage is RequestHeader,
        ensures
            (final(self)@, next@) == session::on_bytes(old(self)@, bytes@),
    {
        if bytes.len() != 4 {
            return Action::Ignored;
        }
        if bytes[0] != SOCKS_VERSION {
            return self.refuse(ResponseCode::Failure);
        }
        if SockCommand::from(bytes[1] as usize).is_none() {
            return self.refuse(ResponseCode::CommandNotSupported);
        }
        match AddrType::from(bytes[3] as usize) {
            None => self.refuse(ResponseCode::AddrTypeNotSupported),
            Some(AddrType::Domain) => self.hold(bytes, Stage::DomainLength, Action::Read(1)),
            Some(AddrType::V4) => self.hold(bytes, Stage::Address(4), Action::Read(4)),
            Some(AddrType::V6) => self.hold(bytes, Stage::Address(16), Action::Read(16)),
        }
    }

    /// Take in the end of the request and handle it.
    fn on_request(&mut self, bytes: &Vec<u8>) -> (next: Action)
        requires
            old(self)@.stage is Port,
            bytes@.len() == 2,
        ensures
            (final(self)@, next@) == session::on_bytes(old(self)@, bytes@),
    {
        let mut frame: Vec<u8> = Vec::new();
        push_octets(&mut frame, self.held.as_slice());
        push_octets(&mut frame, bytes.as_slice());
        assert(frame@ =~= old(self)@.held + bytes@);
        match parse_request(frame.as_slice()) {
            Ok((request, _)) => self.handle_request(request),
            Err(error) => self.fail(error),
        }
    }

    /// Go on after a write, a shutdown or a send.
    fn on_done(&mut self) -> (next: Action)
        ensures
            (final(self)@, next@) == session::on_done(old(self)@),
    {
        match self.stage {
            Stage::Selecting(AuthMethods::UserPass) => self.go(
                Stage::Credentials,
                Action::Read(2),
            ),
            Stage::Selecting(AuthMethods::NoAuth) => self.go(
                Stage::RequestHeader,
                Action::Read(4),
            ),
            Stage::Selecting(AuthMethods::NoMethods) => self.go(
                Stage::Rejecting,
                Action::Shutdown,
            ),
            Stage::Verdict(access) => {
                if access {
                    self.go(Stage::RequestHeader, Action::Read(4))
                } else {
                    self.go(Stage::Rejecting, Action::Shutdown)
                }
            },
            Stage::Rejecting => self.refuse(ResponseCode::Failure),
            Stage::ConnectReply | Stage::PeerReply => self.go(Stage::Relaying, Action::Relay),
            Stage::BindReply(expected) => {
                let budget: u128 = self.connect_budget();
                self.go(Stage::Accepting(expected), Action::Accept(budget))
            },
            Stage::UdpReply(expected) => self.go(
                Stage::Associated(UdpAssociation::new(expected)),
                Action::WaitUdp,
            ),
            Stage::Sending(association) => self.go(
                Stage::Associated(association),
                Action::WaitUdp,
            ),
            _ => Action::Ignored,
        }
    }

    /// Go on after a failure.
    fn on_failed(&mut self, error: IoError) -> (next: Action)
        ensures
            (final(self)@, next@) == session::on_failed(old(self)@, error@),
    {
        match self.stage {
            Stage::Idle | Stage::Over => Action::Ignored,
            Stage::Connecting => {
                if error.kind == IoErrorKind::ConnectionRefused {
                    self.refuse(ResponseCode::ConnectionRefused)
                } else {
                    self.fail(MerinoError::Io(error))
                }
            },
            Stage::Relaying => {
                // ignore not connected for shutdown error
                if error.kind == IoErrorKind::NotConnected {
                    self.finish(0)
                } else {
                    self.fail(MerinoError::Io(error))
                }
            },
            // An error on either socket tears the association down.
            Stage::Associated(_) => self.finish(0),
            Stage::Sending(association) | Stage::LookingUp(association) => self.go(
                Stage::Associated(association),
                Action::WaitUdp,
            ),
            _ => self.fail(MerinoError::Io(error)),
        }
    }

    /// Go on after a time budget ran out.
    fn on_expired(&mut self) -> (next: Action)
        ensures
            (final(self)@, next@) == session::on_expired(old(self)@),
    {
        match self.stage {
            Stage::Connecting | Stage::Accepting(_) => self.fail(connect_timeout_error()),
            _ => {
                if self.is_negotiating() {
                    self.refuse(ResponseCode::TtlExpired)
                } else {
                    Action::Ignored
                }
            },
        }
    }

    /// Go on after a lookup.
    fn on_resolved(&mut self, addrs: Vec<SocketAddr>) -> (next: Action)
        ensures
            (final(self)@, next@) == session::on_resolved(old(self)@, addrs@),
    {
        match self.stage {
            Stage::Resolving => {
                let budget: u128 = self.connect_budget();
                self.go(Stage::Connecting, Action::Connect(addrs, budget))
            },
            Stage::LookingUp(association) => {
                if addrs.len() == 0 {
                    return self.go(Stage::Associated(association), Action::WaitUdp);
                }
                let to = addrs[0];
                let mut payload: Vec<u8> = Vec::new();
                push_octets(&mut payload, self.held.as_slice());
                assert(payload@ =~= old(self)@.held);
                self.go(Stage::Sending(association), Action::SendTo(payload, to))
            },
            _ => Action::Ignored,
        }
    }

    /// Go on after the destination answered.
    fn on_connected(&mut self) -> (next: Action)
        ensures
            (final(self)@, next@) == session::on_connected(old(self)@),
    {
        match self.stage {
            Stage::Connecting => {
                let reply = SocksReply::new(ResponseCode::Success);
                self.go(Stage::ConnectReply, Action::Write(reply.into_bytes()))
            },
            _ => Action::Ignored,
        }
    }

    /// Go on after a socket was bound.
    fn on_bound(&mut self, addr: SocketAddr) -> (next: Action)
        ensures
            (final(self)@, next@) == session::on_bound(old(self)@, addr),
    {
        match self.stage {
            Stage::Listening(expected) => self.confirm(Stage::BindReply(expected), addr),
            Stage::BindingUdp(expected) => self.confirm(Stage::UdpReply(expected), addr),
            _ => Action::Ignored,
        }
    }

    /// Go on after a peer connected.
    ///
    /// The client's expected peer is validated when it supplied a concrete
    /// address. The second reply carries the address of the connected peer.
    fn on_accepted(&mut self, peer: SocketAddr) -> (next: Action)
        ensures
            (final(self)@, next@) == session::on_accepted(old(self)@, peer),
    {
        match self.stage {
            Stage::Accepting(Some(expected)) => {
                if expected.same(&peer.ip()) {
                    self.confirm(Stage::PeerReply, peer)
                } else {
                    self.refuse(ResponseCode::RuleFailure)
                }
            },
            Stage::Accepting(None) => self.confirm(Stage::PeerReply, peer),
            _ => Action::Ignored,
        }
    }

    /// Go on after the relay ended.
    fn on_relayed(&mut self, received: u64) -> (next: Action)
        ensures
            (final(self)@, next@) == session::on_relayed(old(self)@, received),
    {
        match self.stage {
            Stage::Relaying => self.finish(received as usize),
            _ => Action::Ignored,
        }
    }

    /// Go on after the client's stream was heard from during an association.
    fn on_control(&mut self, n: usize) -> (next: Action)
        ensures
            (final(self)@, next@) == session::on_control(old(self)@, n),
    {
        match self.stage {
            Stage::Associated(association) => {
                if n == 0 {
                    self.finish(0)
                } else {
                    self.go(Stage::Associated(association), Action::WaitUdp)
                }
            },
            _ => Action::Ignored,
        }
    }

    /// Go on after a datagram came in.
    fn on_datagram(&mut self, from: SocketAddr, data: &Vec<u8>) -> (next: Action)
        ensures
            (final(self)@, next@) == session::on_datagram(old(self)@, from, data@),
    {
        match self.stage {
            Stage::Associated(before) => {
                let mut association = before;
                match association.on_datagram(from, data.as_slice()) {
                    Forward::Drop => self.go(Stage::Associated(association), Action::WaitUdp),
                    Forward::Send(bytes, to) => self.go(
                        Stage::Sending(association),
                        Action::SendTo(bytes, to),
                    ),
                    Forward::Lookup(name, payload) => {
                        self.held = Vec::new();
                        self.hold(&payload, Stage::LookingUp(association), Action::Resolve(name))
                    },
                }
            },
            _ => Action::Ignored,
        }
    }
}

/// Whether `stage` belongs to the handshake.
fn is_handshake(stage: Stage) -> (handshake: bool)
    ensures
        handshake == session::in_handshake(stage),
{
    match stage {
        Stage::Greeting
        | Stage::Methods(_)
        | Stage::Selecting(_)
        | Stage::Credentials
        | Stage::Username(_)
        | Stage::PasswordLength
        | Stage::Password(_)
        | Stage::Verdict(_)
        | Stage::Rejecting
        | Stage::RequestHeader
        | Stage::DomainLength
        | Stage::Address(_)
        | Stage::Port => true,
        _ => false,
    }
}

} // verus!
