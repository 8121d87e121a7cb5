use merino::{
    Action, AddrType, AuthMethods, ClientRun, Event, IoError, IoErrorKind, IpAddr, Merino,
    MerinoError, ResponseCode, SOCKClient, SOCKSReq, SockCommand, SocketAddr, SocksReply,
    SocksServer, User, DEFAULT_CONNECT_TIMEOUT, DEFAULT_HANDSHAKE_TIMEOUT,
};
use std::sync::Arc;
use std::time::Duration;

// ---------------------------------------------------------------- a client at the other end
/// A connection together with the client's end of its stream.
struct Wire {
    run: ClientRun,
    /// What the client has sent and nobody has read yet.
    pending: Vec<u8>,
    /// Whether the client has closed its end.
    ended: bool,
    /// What has reached the client.
    received: Vec<u8>,
    /// Whether anything can still reach the client.
    open: bool,
    /// What the connection is waiting for.
    action: Action,
}

impl Wire {
    fn new(client: SOCKClient) -> Wire {
        let mut run = ClientRun::new(client);
        let action = run.start();
        Wire { run, pending: Vec::new(), ended: false, received: Vec::new(), open: true, action }
    }

    /// Perform what the connection asks of the stream, as far as possible.
    fn settle(&mut self) {
        loop {
            let event = match &self.action {
                Action::Read(n) => {
                    if self.pending.len() >= *n {
                        let rest = self.pending.split_off(*n);
                        Event::Bytes(std::mem::replace(&mut self.pending, rest))
                    } else if self.ended {
                        Event::Failed(early_eof())
                    } else {
                        return;
                    }
                }
                Action::Write(bytes) => {
                    if self.open {
                        self.received.extend_from_slice(bytes);
                        Event::Done
                    } else {
                        Event::Failed(IoError::other("broken pipe"))
                    }
                }
                Action::Shutdown => {
                    self.open = false;
                    Event::Done
                }
                _ => return,
            };
            self.action = self.run.on_event(event);
        }
    }

    /// The client sends bytes.
    fn send(&mut self, bytes: &[u8]) {
        self.pending.extend_from_slice(bytes);
        self.settle();
    }

    /// The client closes its end.
    fn end(&mut self) {
        self.ended = true;
        self.settle();
    }

    /// The outside world answers.
    fn tell(&mut self, event: Event) {
        self.action = self.run.on_event(event);
        self.settle();
    }

    /// What the client has received since it last looked.
    fn read(&mut self) -> Vec<u8> {
        std::mem::take(&mut self.received)
    }

    /// Send a method-selection greeting and return the chosen method.
    fn greet(&mut self, methods: &[u8]) -> u8 {
        let mut buf = vec![0x05, methods.len() as u8];
        buf.extend_from_slice(methods);
        self.send(&buf);
        let resp = self.read();
        assert_eq!(resp.len(), 2);
        assert_eq!(resp[0], 0x05, "unexpected SOCKS version in greeting reply");
        resp[1]
    }

    /// Perform the USERPASS sub-negotiation and return the status byte.
    fn userpass_auth(&mut self, user: &str, pass: &str) -> u8 {
        self.send(&userpass_frame(0x01, user.as_bytes(), pass.as_bytes()));
        let resp = self.read();
        assert_eq!(resp.len(), 2);
        resp[1]
    }

    fn request_ipv4(&mut self, cmd: u8, ip: [u8; 4], port: u16) {
        self.send(&ipv4_request(cmd, 0x01, ip, port));
    }

    fn request_domain(&mut self, cmd: u8, domain: &str, port: u16) {
        let mut buf = vec![0x05, cmd, 0x00, 0x03, domain.len() as u8];
        buf.extend_from_slice(domain.as_bytes());
        buf.extend_from_slice(&port.to_be_bytes());
        self.send(&buf);
    }

    /// The client's reply, which has to be there as a whole.
    fn reply(&mut self) -> Vec<u8> {
        let resp = self.read();
        assert_eq!(resp.len(), 10);
        assert_eq!(resp[0], 0x05, "unexpected SOCKS version in reply");
        resp
    }
}

fn early_eof() -> IoError {
    IoError::new(IoErrorKind::UnexpectedEof, "early eof")
}

fn userpass_frame(version: u8, user: &[u8], pass: &[u8]) -> Vec<u8> {
    let mut buf = vec![version, user.len() as u8];
    buf.extend_from_slice(user);
    buf.push(pass.len() as u8);
    buf.extend_from_slice(pass);
    buf
}

fn ipv4_request(cmd: u8, addr_type: u8, ip: [u8; 4], port: u16) -> Vec<u8> {
    let mut buf = vec![0x05, cmd, 0x00, addr_type];
    buf.extend_from_slice(&ip);
    buf.extend_from_slice(&port.to_be_bytes());
    buf
}

fn v4(ip: [u8; 4], port: u16) -> SocketAddr {
    SocketAddr::V4 { ip, port }
}

fn loopback() -> Vec<SocketAddr> {
    vec![v4([127, 0, 0, 1], 1080)]
}

fn start_merino(auth_methods: Vec<u8>, users: Vec<User>) -> Wire {
    let merino = Merino::new(loopback(), auth_methods, users, None);
    Wire::new(merino.new_client(None))
}

fn start_no_auth() -> Wire {
    start_merino(vec![AuthMethods::NoAuth.code()], Vec::new())
}

fn start_userpass(users: Vec<User>) -> Wire {
    start_merino(
        vec![AuthMethods::NoAuth.code(), AuthMethods::UserPass.code()],
        users,
    )
}

fn start_actors(auth_methods: Vec<u8>, users: Vec<User>) -> Wire {
    let server = SocksServer::bind(loopback(), auth_methods, users, None);
    Wire::new(server.new_client(None))
}

fn start_actors_no_auth() -> Wire {
    start_actors(vec![AuthMethods::NoAuth.code()], Vec::new())
}

fn start_actors_userpass(users: Vec<User>) -> Wire {
    start_actors(
        vec![AuthMethods::NoAuth.code(), AuthMethods::UserPass.code()],
        users,
    )
}

/// Check a `CONNECT` that is taken up, let the destination answer, and check
/// that the relay starts.
fn connect_and_relay(stream: &mut Wire, addrs: Vec<SocketAddr>) {
    assert_eq!(
        stream.action,
        Action::Connect(addrs, DEFAULT_CONNECT_TIMEOUT)
    );
    assert!(stream.read().is_empty());
    stream.tell(Event::Connected);
    assert_eq!(stream.reply()[1], 0x00);
    assert_eq!(stream.action, Action::Relay);
}

fn failed_with(code: ResponseCode) -> Action {
    Action::Finished(Err(MerinoError::Socks(code)))
}

// ---------------------------------------------------------------- negotiation
fn check_noauth_negotiation(mut stream: Wire) {
    assert_eq!(stream.greet(&[0x00]), 0x00);
    assert_eq!(stream.action, Action::Read(4));
}

#[test]
fn socks5_noauth_negotiation_succeeds() {
    check_noauth_negotiation(start_no_auth());
}

#[test]
fn actors_noauth_negotiation_succeeds() {
    check_noauth_negotiation(start_actors_no_auth());
}

fn check_userpass_only_client(mut stream: Wire) {
    assert_eq!(stream.greet(&[0x02]), 0xFF);
    assert!(!stream.open);
    assert_eq!(stream.action, failed_with(ResponseCode::Failure));
}

#[test]
fn socks5_noauth_server_rejects_userpass_only_client() {
    check_userpass_only_client(start_no_auth());
}

#[test]
fn actors_noauth_server_rejects_userpass_only_client() {
    check_userpass_only_client(start_actors_no_auth());
}

fn check_userpass_connect(mut stream: Wire, message: &[u8]) {
    assert_eq!(stream.greet(&[0x02]), 0x02);
    assert_eq!(stream.userpass_auth("alice", "secret"), 0x00);
    stream.request_ipv4(0x01, [127, 0, 0, 1], 7777);
    connect_and_relay(&mut stream, vec![v4([127, 0, 0, 1], 7777)]);
    // what the client sends now belongs to the relay
    stream.send(message);
    assert_eq!(stream.pending, message);
    let n = message.len() as u64;
    stream.tell(Event::Relayed(n, n));
    assert_eq!(stream.action, Action::Finished(Ok(message.len())));
    assert!(stream.read().is_empty());
}

#[test]
fn socks5_userpass_success_then_connect_relays_data() {
    check_userpass_connect(
        start_userpass(vec![User::new("alice", "secret")]),
        b"hello socks",
    );
}

#[test]
fn actors_userpass_success_then_connect_relays_data() {
    check_userpass_connect(
        start_actors_userpass(vec![User::new("alice", "secret")]),
        b"hello actors",
    );
}

fn check_bad_credentials(mut stream: Wire) {
    assert_eq!(stream.greet(&[0x02]), 0x02);
    assert_eq!(stream.userpass_auth("alice", "wrong"), 0x01);
    // the connection closes, without another byte
    assert!(!stream.open);
    assert!(stream.read().is_empty());
    assert_eq!(stream.action, failed_with(ResponseCode::Failure));
    // and no request is read any more
    stream.request_ipv4(0x01, [127, 0, 0, 1], 7777);
    assert_eq!(stream.action, failed_with(ResponseCode::Failure));
    assert!(stream.run.client().request().is_none());
}

#[test]
fn socks5_userpass_bad_credentials_are_rejected() {
    check_bad_credentials(start_userpass(vec![User::new("alice", "secret")]));
}

#[test]
fn actors_userpass_bad_credentials_are_rejected() {
    check_bad_credentials(start_actors_userpass(vec![User::new("alice", "secret")]));
}

fn check_connect(mut stream: Wire, messages: &[&[u8]]) {
    assert_eq!(stream.greet(&[0x00]), 0x00);
    stream.request_ipv4(0x01, [127, 0, 0, 1], 7777);
    connect_and_relay(&mut stream, vec![v4([127, 0, 0, 1], 7777)]);
    let mut all = Vec::new();
    for msg in messages {
        stream.send(msg);
        all.extend_from_slice(msg);
    }
    assert_eq!(stream.pending, all);
    assert_eq!(stream.action, Action::Relay);
}

#[test]
fn socks5_connect_relays_data_bidirectionally() {
    check_connect(start_no_auth(), &[b"first", b"second"]);
}

#[test]
fn actors_connect_relays_data_bidirectionally() {
    check_connect(start_actors_no_auth(), &[b"actors echo"]);
}

fn check_connect_by_name(mut stream: Wire) {
    assert_eq!(stream.greet(&[0x00]), 0x00);
    stream.request_domain(0x01, "localhost", 7777);
    assert_eq!(stream.action, Action::Resolve("localhost:7777".to_string()));
    let found = vec![
        SocketAddr::V6 {
            ip: [0, 0, 0, 0, 0, 0, 0, 0, 0, 0, 0, 0, 0, 0, 0, 1],
            port: 7777,
            flowinfo: 0,
            scope_id: 0,
        },
        v4([127, 0, 0, 1], 7777),
    ];
    stream.tell(Event::Resolved(found.clone()));
    connect_and_relay(&mut stream, found);
}

#[test]
fn socks5_connect_by_domain_name_succeeds() {
    check_connect_by_name(start_no_auth());
}

#[test]
fn actors_connect_by_domain_name_succeeds() {
    check_connect_by_name(start_actors_no_auth());
}

fn check_refused_connect(mut stream: Wire) {
    assert_eq!(stream.greet(&[0x00]), 0x00);
    stream.request_ipv4(0x01, [127, 0, 0, 1], 7777);
    stream.tell(Event::Failed(IoError::new(
        IoErrorKind::ConnectionRefused,
        "Connection refused (os error 111)",
    )));
    assert_eq!(stream.reply()[1], 0x05);
    assert!(!stream.open);
}

#[test]
fn socks5_connect_to_dead_port_is_refused() {
    check_refused_connect(start_no_auth());
}

#[test]
fn actors_connect_to_dead_port_is_refused() {
    check_refused_connect(start_actors_no_auth());
}

fn check_unsupported_command(mut stream: Wire, cmd: u8) {
    assert_eq!(stream.greet(&[0x00]), 0x00);
    stream.request_ipv4(cmd, [127, 0, 0, 1], 0);
    assert_eq!(stream.reply()[1], 0x07);
    assert!(!stream.open);
    assert_eq!(stream.action, failed_with(ResponseCode::CommandNotSupported));
}

#[test]
fn socks5_bind_command_is_not_supported() {
    check_unsupported_command(start_no_auth(), 0x02);
}

#[test]
fn actors_bind_command_is_not_supported() {
    check_unsupported_command(start_actors_no_auth(), 0x02);
}

#[test]
fn udp_associate_command_is_not_supported() {
    check_unsupported_command(start_no_auth(), 0x03);
}

fn check_unsupported_version(mut stream: Wire) {
    stream.send(&[0x04, 0x01, 0x00]);
    assert!(!stream.open, "expected connection to close");
    assert!(stream.read().is_empty());
    assert_eq!(stream.action, failed_with(ResponseCode::Failure));
}

#[test]
fn socks5_unsupported_version_is_rejected() {
    check_unsupported_version(start_no_auth());
}

#[test]
fn actors_unsupported_version_is_rejected() {
    check_unsupported_version(start_actors_no_auth());
}

// ---------------------------------------------------------------- hostile clients
#[test]
fn byte_at_a_time_greeting_is_reassembled() {
    let mut stream = start_no_auth();
    for byte in [0x05u8, 0x01, 0x00] {
        stream.send(&[byte]);
    }
    assert_eq!(stream.read(), [0x05, 0x00]);
}

#[test]
fn fragmented_connect_request_is_reassembled() {
    let mut stream = start_no_auth();
    assert_eq!(stream.greet(&[0x00]), 0x00);
    for byte in ipv4_request(0x01, 0x01, [127, 0, 0, 1], 7777) {
        stream.send(&[byte]);
    }
    connect_and_relay(&mut stream, vec![v4([127, 0, 0, 1], 7777)]);
    stream.send(b"fragmented");
    assert_eq!(stream.pending, b"fragmented");
}

#[test]
fn truncated_greeting_is_answered_with_failure() {
    let mut stream = start_no_auth();
    stream.send(&[0x05]);
    stream.end();
    assert_eq!(stream.reply()[1], 0x01, "truncated greeting should fail (0x01)");
    assert!(!stream.open, "expected connection to close");
    assert_eq!(
        stream.action,
        Action::Finished(Err(MerinoError::Io(early_eof())))
    );
}

#[test]
fn invalid_command_gets_command_not_supported() {
    let mut stream = start_no_auth();
    assert_eq!(stream.greet(&[0x00]), 0x00);
    // 0x09 is not a defined SOCKS5 command; no address bytes follow.
    stream.send(&[0x05, 0x09, 0x00, 0x01]);
    assert_eq!(stream.reply()[1], 0x07);
}

#[test]
fn invalid_addr_type_gets_addr_type_not_supported() {
    let mut stream = start_no_auth();
    assert_eq!(stream.greet(&[0x00]), 0x00);
    // ATYP 0x02 is reserved.
    stream.send(&[0x05, 0x01, 0x00, 0x02]);
    assert_eq!(stream.reply()[1], 0x08);
}

#[test]
fn nonzero_reserved_byte_is_ignored() {
    let mut stream = start_no_auth();
    assert_eq!(stream.greet(&[0x00]), 0x00);
    let mut req = ipv4_request(0x01, 0x01, [127, 0, 0, 1], 7777);
    req[2] = 0xAB; // RSV should be 0x00 but is ignored by the parser
    stream.send(&req);
    connect_and_relay(&mut stream, vec![v4([127, 0, 0, 1], 7777)]);
}

#[test]
fn userpass_non_utf8_password_is_rejected() {
    let mut stream = start_userpass(vec![User::new("alice", "secret")]);
    assert_eq!(stream.greet(&[0x02]), 0x02);
    stream.send(&userpass_frame(0x01, b"alice", &[0xFF, 0xFE]));
    assert_eq!(stream.read(), [0x01, 0x01]);
}

#[test]
fn undecodable_password_is_rejected_whoever_the_users_are() {
    let mut stream = start_userpass(vec![User::new("alice", "\u{FFFD}")]);
    let mut input = vec![0x05, 0x01, 0x02];
    input.extend_from_slice(&userpass_frame(0x01, b"alice", &[0xFF]));
    input.extend_from_slice(&ipv4_request(0x01, 0x01, [127, 0, 0, 1], 80));
    stream.send(&input);
    assert_eq!(stream.read(), [0x05, 0x02, 0x01, 0x01]);
    assert!(!stream.open);
    assert_eq!(stream.action, failed_with(ResponseCode::Failure));
    // what follows the credentials is never read
    assert_eq!(stream.pending, ipv4_request(0x01, 0x01, [127, 0, 0, 1], 80));
}

#[test]
fn refused_requests_are_read_no_further_than_their_header() {
    for (cmd, addr_type, code) in [(0x09, 0x01, 0x07), (0x01, 0x02, 0x08)] {
        let mut stream = start_no_auth();
        assert_eq!(stream.greet(&[0x00]), 0x00);
        stream.send(&ipv4_request(cmd, addr_type, [127, 0, 0, 1], 80));
        assert_eq!(stream.reply()[1], code);
        assert_eq!(stream.pending, [127, 0, 0, 1, 0, 80]);
    }
}

#[test]
fn many_concurrent_greetings_are_served() {
    let merino = Merino::new(loopback(), vec![AuthMethods::NoAuth.code()], Vec::new(), None);
    let mut streams: Vec<Wire> = (0..32).map(|_| Wire::new(merino.new_client(None))).collect();
    let mut served = 0;
    for byte in [0x05u8, 0x01, 0x00] {
        for stream in streams.iter_mut() {
            stream.send(&[byte]);
        }
    }
    for stream in streams.iter_mut() {
        assert_eq!(stream.read(), [0x05, 0x00]);
        served += 1;
    }
    assert_eq!(served, 32);
}

#[test]
fn relay_survives_handshake_timeout() {
    let mut client = SOCKClient::new(
        Arc::new(Vec::new()),
        Arc::new(vec![AuthMethods::NoAuth.code()]),
        None,
    );
    client.set_handshake_timeout(Duration::from_millis(100).as_nanos());
    let mut stream = Wire::new(client);
    assert!(stream.run.is_negotiating());
    stream.send(&[0x05, 0x01, 0x00]);
    assert_eq!(stream.read(), [0x05, 0x00]);
    stream.request_ipv4(0x01, [127, 0, 0, 1], 7777);
    assert!(!stream.run.is_negotiating());
    connect_and_relay(&mut stream, vec![v4([127, 0, 0, 1], 7777)]);

    // Outlive the handshake budget: the relay must stay up.
    stream.tell(Event::Expired);
    assert_eq!(stream.action, Action::Ignored);
    stream.tell(Event::Relayed(5, 5));
    assert_eq!(stream.action, Action::Finished(Ok(5)));
}

/// A client that is not part of a connection.
fn dup_client(auth_methods: Vec<u8>, users: Vec<User>) -> SOCKClient {
    SOCKClient::new(Arc::new(users), Arc::new(auth_methods), None)
}

#[test]
fn stalled_handshake_times_out() {
    let mut client = dup_client(vec![AuthMethods::NoAuth.code()], Vec::new());
    client.set_handshake_timeout(Duration::from_millis(50).as_nanos());
    assert_eq!(client.handshake_timeout(), 50_000_000);
    assert_eq!(client.init(), Action::Read(2));
    assert!(client.is_negotiating());
    assert_eq!(client.on_event(Event::Expired), failed_with(ResponseCode::TtlExpired));
}

#[test]
fn nmethods_overflow_times_out() {
    let mut client = dup_client(vec![AuthMethods::NoAuth.code()], Vec::new());
    client.set_handshake_timeout(Duration::from_millis(50).as_nanos());
    client.init();
    // Claims 255 methods but never sends any.
    assert_eq!(
        client.on_event(Event::Bytes(vec![0x05, 0xFF])),
        Action::Read(255)
    );
    assert_eq!(client.on_event(Event::Expired), failed_with(ResponseCode::TtlExpired));
}

#[test]
fn expired_handshake_is_answered_with_ttl_expired() {
    let mut stream = start_no_auth();
    stream.send(&[0x05]);
    stream.tell(Event::Expired);
    assert_eq!(stream.reply()[1], 0x06);
    assert!(!stream.open);
}

#[test]
fn userpass_wrong_version_is_rejected() {
    let mut client = dup_client(
        vec![AuthMethods::UserPass.code()],
        vec![User::new("alice", "secret")],
    );
    client.set_handshake_timeout(Duration::from_secs(5).as_nanos());
    let mut stream = Wire::new(client);
    stream.send(&[0x05, 0x01, 0x02]);
    assert_eq!(stream.read(), [0x05, 0x02]);
    // Sub-negotiation version 0x02 instead of the required 0x01.
    stream.send(&userpass_frame(0x02, b"alice", b"secret"));
    assert_eq!(stream.read(), [0x01, 0x01]);
    assert!(!stream.open);
    assert_eq!(stream.action, failed_with(ResponseCode::Failure));
}

#[test]
fn greeting_without_methods_is_turned_away() {
    let mut stream = start_no_auth();
    stream.send(&[0x05, 0x00]);
    assert_eq!(stream.read(), [0x05, 0xFF]);
    assert!(!stream.open);
}

#[test]
fn duplicate_and_unknown_methods_are_harmless() {
    let mut stream = start_no_auth();
    assert_eq!(stream.greet(&[0x80, 0x00, 0x00, 0x01]), 0x00);
    assert_eq!(stream.run.client().auth_nmethods(), 4);
}

#[test]
fn empty_credentials_are_rejected() {
    let mut stream = start_userpass(vec![User::new("alice", "secret")]);
    assert_eq!(stream.greet(&[0x00, 0x02]), 0x02);
    assert_eq!(stream.userpass_auth("", ""), 0x01);
    assert!(!stream.open);
}

#[test]
fn truncated_credentials_are_answered_with_failure() {
    let mut stream = start_userpass(vec![User::new("alice", "secret")]);
    assert_eq!(stream.greet(&[0x02]), 0x02);
    stream.send(&[0x01, 0x20, b'a']);
    stream.end();
    assert_eq!(stream.reply()[1], 0x01);
}

#[test]
fn oversized_domain_prefix_is_answered_with_failure() {
    let mut stream = start_no_auth();
    assert_eq!(stream.greet(&[0x00]), 0x00);
    stream.send(&[0x05, 0x01, 0x00, 0x03, 0xFF]);
    assert_eq!(stream.action, Action::Read(255));
    stream.end();
    assert_eq!(stream.reply()[1], 0x01);
}

#[test]
fn pipelined_messages_are_all_read() {
    let mut stream = start_userpass(vec![User::new("alice", "secret")]);
    let mut input = vec![0x05, 0x01, 0x02];
    input.extend_from_slice(&userpass_frame(0x01, b"alice", b"secret"));
    input.extend_from_slice(&ipv4_request(0x01, 0x01, [10, 0, 0, 1], 80));
    input.extend_from_slice(b"GET /");
    stream.send(&input);
    assert_eq!(stream.read(), [0x05, 0x02, 0x01, 0x00]);
    assert_eq!(
        stream.action,
        Action::Connect(vec![v4([10, 0, 0, 1], 80)], DEFAULT_CONNECT_TIMEOUT)
    );
    assert_eq!(stream.pending, b"GET /");
}

// ---------------------------------------------------------------- requests
#[test]
fn new_no_auth_builds_client() {
    let client = SOCKClient::new_no_auth(Some(Duration::from_secs(1).as_nanos()));
    assert_eq!(client.auth_nmethods(), 0);
    assert_eq!(client.socks_version(), 0);
    assert_eq!(client.auth_methods(), &[AuthMethods::NoAuth.code()]);
    assert_eq!(client.handshake_timeout(), DEFAULT_HANDSHAKE_TIMEOUT);
    assert!(client.request().is_none());
    assert!(!client.is_negotiating());
}

#[test]
fn from_stream_rejects_unsupported_version() {
    let mut client = SOCKClient::new_no_auth(None);
    assert_eq!(client.handle_client(), Action::Read(4));
    let action = client.on_event(Event::Bytes(vec![0x04, 0x01, 0x00, 0x01]));
    assert_eq!(action, failed_with(ResponseCode::Failure));
}

#[test]
fn from_stream_parses_ipv6_request() {
    let mut client = SOCKClient::new_no_auth(None);
    assert_eq!(client.handle_client(), Action::Read(4));
    assert_eq!(
        client.on_event(Event::Bytes(vec![0x05, 0x01, 0x00, 0x04])),
        Action::Read(16)
    );
    assert_eq!(client.on_event(Event::Bytes(vec![0u8; 16])), Action::Read(2));
    client.on_event(Event::Bytes(vec![0x00, 0x50]));
    let req = client.request().unwrap();
    assert_eq!(req.addr_type, AddrType::V6);
    assert_eq!(req.addr.len(), 16);
    assert_eq!(req.port, 80);
}

#[test]
fn request_without_negotiation_has_no_budget() {
    let mut client = SOCKClient::new_no_auth(None);
    assert_eq!(client.handle_client(), Action::Read(4));
    assert!(!client.is_negotiating());
    assert_eq!(client.on_event(Event::Expired), Action::Ignored);
    assert_eq!(
        client.on_event(Event::Bytes(vec![0x05, 0x01, 0x00, 0x01])),
        Action::Read(4)
    );
    assert_eq!(client.on_event(Event::Expired), Action::Ignored);
    // a negotiation has one
    assert_eq!(client.init(), Action::Read(2));
    assert!(client.is_negotiating());
    assert_eq!(client.on_event(Event::Expired), failed_with(ResponseCode::TtlExpired));
}

fn request(command: SockCommand, addr_type: AddrType, addr: &[u8], port: u16) -> SOCKSReq {
    SOCKSReq { version: 0x05, command, addr_type, addr: addr.to_vec(), port }
}

#[test]
fn configured_timeout_bounds_the_connection() {
    let mut client = SOCKClient::new_no_auth(Some(7));
    let connect = request(SockCommand::Connect, AddrType::V4, &[1, 2, 3, 4], 5);
    assert_eq!(
        client.handle_request(connect),
        Action::Connect(vec![v4([1, 2, 3, 4], 5)], 7)
    );
    assert_eq!(client.on_event(Event::Expired), failed_with(ResponseCode::TtlExpired));
}

#[test]
fn request_with_a_short_address_is_an_io_error() {
    let mut client = SOCKClient::new_no_auth(None);
    let connect = request(SockCommand::Connect, AddrType::V4, &[1, 2, 3], 5);
    assert_eq!(
        client.handle_request(connect),
        Action::Finished(Err(MerinoError::Io(IoError::new(
            IoErrorKind::InvalidInput,
            "IPv4 address must be 4 bytes"
        ))))
    );
}

#[test]
fn unreachable_destination_is_a_general_failure() {
    let mut stream = start_no_auth();
    assert_eq!(stream.greet(&[0x00]), 0x00);
    stream.request_domain(0x01, "nowhere.invalid", 80);
    stream.tell(Event::Failed(IoError::other("failed to lookup address information")));
    assert_eq!(stream.reply()[1], 0x01);
}

#[test]
fn closed_relay_ends_well() {
    for (kind, outcome) in [
        (IoErrorKind::NotConnected, Ok(0)),
        (
            IoErrorKind::Other,
            Err(MerinoError::Io(IoError::new(IoErrorKind::Other, "relay"))),
        ),
    ] {
        let mut client = SOCKClient::new_no_auth(None);
        client.handle_request(request(SockCommand::Connect, AddrType::V4, &[1, 2, 3, 4], 5));
        client.on_event(Event::Connected);
        assert_eq!(client.on_event(Event::Done), Action::Relay);
        let action = client.on_event(Event::Failed(IoError::new(kind, "relay")));
        assert_eq!(action, Action::Finished(outcome));
    }
}

#[test]
fn unexpected_events_change_nothing() {
    let mut client = SOCKClient::new_no_auth(None);
    assert_eq!(client.on_event(Event::Done), Action::Ignored);
    assert_eq!(client.on_event(Event::Failed(early_eof())), Action::Ignored);
    client.init();
    assert_eq!(client.on_event(Event::Bytes(vec![0x05])), Action::Ignored);
    assert_eq!(client.on_event(Event::Connected), Action::Ignored);
    assert_eq!(client.on_event(Event::Relayed(1, 2)), Action::Ignored);
    assert_eq!(
        client.on_event(Event::Bytes(vec![0x05, 0x01])),
        Action::Read(1)
    );
}

#[test]
fn failures_are_reported_even_where_the_client_is_gone() {
    let mut run = ClientRun::new(SOCKClient::new_no_auth(None));
    assert_eq!(run.start(), Action::Read(2));
    let reply = SocksReply::new(ResponseCode::Failure).into_bytes();
    assert_eq!(run.on_event(Event::Failed(early_eof())), Action::Write(reply));
    assert_eq!(run.failure(), Some(&MerinoError::Io(early_eof())));
    assert!(!run.is_negotiating());
    assert_eq!(
        run.on_event(Event::Failed(IoError::other("broken pipe"))),
        Action::Shutdown
    );
    assert_eq!(
        run.on_event(Event::Failed(IoError::other("not connected"))),
        Action::Finished(Err(MerinoError::Io(early_eof())))
    );
    assert_eq!(run.on_event(Event::Done), Action::Ignored);
}

#[test]
fn events_leave_the_configuration_alone() {
    let mut client = dup_client(
        vec![AuthMethods::NoAuth.code()],
        vec![User::new("alice", "secret")],
    );
    client.set_handshake_timeout(5);
    client.init();
    client.on_event(Event::Bytes(vec![0x05, 0x01]));
    client.on_event(Event::Failed(early_eof()));
    assert_eq!(client.auth_methods(), &[AuthMethods::NoAuth.code()]);
    assert_eq!(client.handshake_timeout(), 5);
    assert_eq!(client.socks_version(), 5);
    assert!(client.authed(&User::new("alice", "secret")));
    // and a session that is over stays over
    assert_eq!(client.on_event(Event::Bytes(vec![0x00])), Action::Ignored);
}

#[test]
fn every_read_of_a_long_negotiation_is_small() {
    let mut stream = start_userpass(vec![User::new("u".repeat(255), "p".repeat(255))]);
    let mut input = vec![0x05, 0xFF];
    input.extend_from_slice(&[0x02; 255]);
    input.extend_from_slice(&userpass_frame(0x01, &[b'u'; 255], &[b'p'; 255]));
    input.extend_from_slice(&[0x05, 0x01, 0x00, 0x03, 0xFF]);
    input.extend_from_slice(&[b'd'; 255]);
    for byte in &input {
        if let Action::Read(n) = stream.action {
            assert!(n <= 255);
        }
        stream.send(&[*byte]);
    }
    stream.send(&[0, 80]);
    assert_eq!(
        stream.action,
        Action::Resolve(format!("{}:80", "d".repeat(255)))
    );
}

#[test]
fn known_users_are_authed() {
    let client = dup_client(
        vec![AuthMethods::UserPass.code()],
        vec![User::new("alice", "secret"), User::new("bob", "hunter2")],
    );
    assert!(client.authed(&User::new("bob", "hunter2")));
    assert!(!client.authed(&User::new("bob", "secret")));
    assert!(!client.authed(&User::new("", "")));
    assert_eq!(client.get_avalible_methods(&[0, 2, 1, 2]), vec![2, 2]);
}

// ---------------------------------------------------------------- BIND
fn bind_client(local_addr: Option<SocketAddr>, addr: [u8; 4]) -> (SOCKClient, Action) {
    let mut client = SOCKClient::new_no_auth(Some(9));
    client.set_local_addr(local_addr);
    client.set_optional_commands(true, true);
    let action = client.handle_request(request(SockCommand::Bind, AddrType::V4, &addr, 21));
    (client, action)
}

#[test]
fn bind_relays_the_expected_peer() {
    let (mut client, action) = bind_client(Some(v4([192, 0, 2, 1], 1080)), [198, 51, 100, 7]);
    assert_eq!(client.local_interface(), IpAddr::V4([192, 0, 2, 1]));
    assert_eq!(action, Action::Listen(v4([192, 0, 2, 1], 0)));
    assert_eq!(
        client.on_event(Event::Bound(v4([192, 0, 2, 1], 4000))),
        Action::Write(vec![5, 0, 0, 1, 192, 0, 2, 1, 0x0F, 0xA0])
    );
    assert_eq!(client.on_event(Event::Done), Action::Accept(9));
    assert_eq!(
        client.on_event(Event::Accepted(v4([198, 51, 100, 7], 20))),
        Action::Write(vec![5, 0, 0, 1, 198, 51, 100, 7, 0, 20])
    );
    assert_eq!(client.on_event(Event::Done), Action::Relay);
    assert_eq!(
        client.on_event(Event::Relayed(3, 4)),
        Action::Finished(Ok(4))
    );
}

#[test]
fn bind_refuses_another_peer() {
    let (mut client, action) = bind_client(None, [198, 51, 100, 7]);
    assert_eq!(action, Action::Listen(v4([0, 0, 0, 0], 0)));
    client.on_event(Event::Bound(v4([127, 0, 0, 1], 4000)));
    client.on_event(Event::Done);
    assert_eq!(
        client.on_event(Event::Accepted(v4([198, 51, 100, 8], 20))),
        failed_with(ResponseCode::RuleFailure)
    );
}

#[test]
fn bind_accepts_anyone_when_no_peer_is_named() {
    let (mut client, _) = bind_client(None, [0, 0, 0, 0]);
    client.on_event(Event::Bound(v4([127, 0, 0, 1], 4000)));
    client.on_event(Event::Done);
    assert_eq!(
        client.on_event(Event::Accepted(v4([198, 51, 100, 8], 20))),
        Action::Write(vec![5, 0, 0, 1, 198, 51, 100, 8, 0, 20])
    );
}

#[test]
fn bind_gives_up_on_an_absent_peer() {
    let (mut client, _) = bind_client(None, [0, 0, 0, 0]);
    client.on_event(Event::Bound(v4([127, 0, 0, 1], 4000)));
    client.on_event(Event::Done);
    assert_eq!(client.on_event(Event::Expired), failed_with(ResponseCode::TtlExpired));
}

// ---------------------------------------------------------------- UDP ASSOCIATE
fn associated(addr: [u8; 4]) -> SOCKClient {
    let mut client = SOCKClient::new_no_auth(None);
    client.set_optional_commands(false, true);
    assert_eq!(
        client.handle_request(request(SockCommand::UdpAssosiate, AddrType::V4, &addr, 0)),
        Action::BindUdp(v4([0, 0, 0, 0], 0))
    );
    assert_eq!(
        client.on_event(Event::Bound(v4([127, 0, 0, 1], 5000))),
        Action::Write(vec![5, 0, 0, 1, 127, 0, 0, 1, 0x13, 0x88])
    );
    assert_eq!(client.on_event(Event::Done), Action::WaitUdp);
    client
}

const HOME: [u8; 4] = [203, 0, 113, 5];

#[test]
fn datagrams_are_relayed_both_ways() {
    let mut client = associated([0, 0, 0, 0]);
    let home = v4(HOME, 1111);
    let echo = v4([198, 51, 100, 9], 7);
    let mut packet = vec![0, 0, 0, 0x01, 198, 51, 100, 9, 0, 7];
    packet.extend_from_slice(b"ping");
    assert_eq!(
        client.on_event(Event::Datagram(home, packet)),
        Action::SendTo(b"ping".to_vec(), echo)
    );
    assert_eq!(client.on_event(Event::Done), Action::WaitUdp);
    let mut framed = vec![0, 0, 0, 0x01, 198, 51, 100, 9, 0, 7];
    framed.extend_from_slice(b"pong");
    assert_eq!(
        client.on_event(Event::Datagram(echo, b"pong".to_vec())),
        Action::SendTo(framed, home)
    );
    // the client stays the client
    assert_eq!(client.on_event(Event::Done), Action::WaitUdp);
    assert_eq!(
        client.on_event(Event::Datagram(v4(HOME, 2222), b"spoof".to_vec())),
        Action::SendTo(
            vec![0, 0, 0, 0x01, 203, 0, 113, 5, 0x08, 0xAE, b's', b'p', b'o', b'o', b'f'],
            home
        )
    );
    // a datagram that cannot be delivered is lost, nothing more
    assert_eq!(
        client.on_event(Event::Failed(IoError::other("unreachable"))),
        Action::WaitUdp
    );
    // data on the control channel is ignored, its end is the end
    assert_eq!(client.on_event(Event::Control(1)), Action::WaitUdp);
    assert_eq!(client.on_event(Event::Expired), Action::Ignored);
    assert_eq!(client.on_event(Event::Control(0)), Action::Finished(Ok(0)));
}

#[test]
fn datagrams_to_a_name_wait_for_the_lookup() {
    let mut client = associated([0, 0, 0, 0]);
    let home = v4(HOME, 1111);
    let packet = vec![0, 0, 0, 0x03, 2, b'n', b's', 0, 53, b'?'];
    assert_eq!(
        client.on_event(Event::Datagram(home, packet.clone())),
        Action::Resolve("ns:53".to_string())
    );
    let found = vec![v4([9, 9, 9, 9], 53), v4([8, 8, 8, 8], 53)];
    assert_eq!(
        client.on_event(Event::Resolved(found)),
        Action::SendTo(b"?".to_vec(), v4([9, 9, 9, 9], 53))
    );
    assert_eq!(client.on_event(Event::Done), Action::WaitUdp);
    client.on_event(Event::Datagram(home, packet.clone()));
    assert_eq!(client.on_event(Event::Resolved(Vec::new())), Action::WaitUdp);
    client.on_event(Event::Datagram(home, packet));
    assert_eq!(
        client.on_event(Event::Failed(IoError::other("no such host"))),
        Action::WaitUdp
    );
}

#[test]
fn fragments_and_bad_headers_are_dropped() {
    let mut client = associated([0, 0, 0, 0]);
    let home = v4(HOME, 1111);
    let fragment = vec![0, 0, 1, 0x01, 198, 51, 100, 9, 0, 7, b'x'];
    assert_eq!(
        client.on_event(Event::Datagram(home, fragment)),
        Action::WaitUdp
    );
    assert_eq!(
        client.on_event(Event::Datagram(home, vec![0, 0, 0, 0x02])),
        Action::WaitUdp
    );
    // the client is known all the same
    let other = v4([198, 51, 100, 9], 7);
    assert_eq!(
        client.on_event(Event::Datagram(other, b"!".to_vec())),
        Action::SendTo(vec![0, 0, 0, 0x01, 198, 51, 100, 9, 0, 7, b'!'], home)
    );
}

#[test]
fn datagrams_from_an_unexpected_source_are_dropped() {
    let mut client = associated(HOME);
    let packet = vec![0, 0, 0, 0x01, 198, 51, 100, 9, 0, 7, b'x'];
    assert_eq!(
        client.on_event(Event::Datagram(v4([203, 0, 113, 6], 1111), packet.clone())),
        Action::WaitUdp
    );
    assert_eq!(
        client.on_event(Event::Datagram(v4(HOME, 1111), packet)),
        Action::SendTo(b"x".to_vec(), v4([198, 51, 100, 9], 7))
    );
}

#[test]
fn association_ends_with_its_sockets() {
    let mut client = associated([0, 0, 0, 0]);
    assert_eq!(
        client.on_event(Event::Failed(IoError::other("recv"))),
        Action::Finished(Ok(0))
    );
}
