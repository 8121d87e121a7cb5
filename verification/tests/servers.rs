use merino::{
    addresses_to_bind, check_users_file, choose_method, log_filter, log_level_for, require_users,
    select_auth_methods, AcceptAction, AcceptEvent, AcceptLoop, Action, AuthMethods, BindAttempts,
    ClientRun, Event, IoError, IoErrorKind, Merino, SOCKClient, SocketAddr, SocksServer, User,
    DEFAULT_MAX_CONNECTIONS,
};

fn v4(port: u16) -> SocketAddr {
    SocketAddr::V4 { ip: [127, 0, 0, 1], port }
}

fn v6(port: u16) -> SocketAddr {
    SocketAddr::V6 {
        ip: [0, 0, 0, 0, 0, 0, 0, 0, 0, 0, 0, 0, 0, 0, 0, 1],
        port,
        flowinfo: 0,
        scope_id: 0,
    }
}

fn no_auth() -> Vec<u8> {
    vec![AuthMethods::NoAuth.code()]
}

// ---------------------------------------------------------------- listening
/// What `localhost` resolves to on a dual-stack host, bound.
fn localhost() -> Vec<SocketAddr> {
    let resolved = vec![v6(0), v4(0), v6(0)];
    let addrs = addresses_to_bind("localhost", &resolved).unwrap();
    assert_eq!(addrs, vec![v6(0), v4(0)]);
    let mut attempts = BindAttempts::new();
    for (i, addr) in addrs.iter().enumerate() {
        attempts.record(Ok(match addr {
            SocketAddr::V4 { .. } => v4(4000 + i as u16),
            SocketAddr::V6 { .. } => v6(4000 + i as u16),
        }));
    }
    attempts.finish("localhost", 0).unwrap()
}

/// Send a method-selection greeting on a new connection and return the chosen
/// method.
fn greet(client: SOCKClient, methods: &[u8]) -> u8 {
    let mut run = ClientRun::new(client);
    assert_eq!(run.start(), Action::Read(2));
    let header = vec![0x05, methods.len() as u8];
    assert_eq!(run.on_event(Event::Bytes(header)), Action::Read(methods.len()));
    match run.on_event(Event::Bytes(methods.to_vec())) {
        Action::Write(resp) => {
            assert_eq!(resp.len(), 2);
            assert_eq!(resp[0], 0x05, "unexpected SOCKS version in greeting reply");
            resp[1]
        }
        action => panic!("no answer to the greeting: {action:?}"),
    }
}

/// A server at work: its accept loop and its free slots.
struct Door {
    accept_loop: AcceptLoop,
    slots: usize,
    holding: bool,
}

impl Door {
    fn new(listeners: usize, slots: usize) -> Door {
        let mut door = Door { accept_loop: AcceptLoop::new(listeners), slots, holding: false };
        door.settle();
        door
    }

    /// Let the loop acquire a slot if it wants one and there is one.
    fn settle(&mut self) {
        if !self.holding && self.slots > 0 {
            assert_eq!(self.accept_loop.on_event(AcceptEvent::Acquired), AcceptAction::Accept);
            self.slots -= 1;
            self.holding = true;
        }
    }

    /// A client waits at a listener: whether it is accepted.
    fn knock(&mut self, listener: usize) -> bool {
        if !self.holding {
            return false;
        }
        assert!(self.accept_loop.polling_order().contains(&listener));
        assert_eq!(
            self.accept_loop.on_event(AcceptEvent::Accepted(listener)),
            AcceptAction::Serve(listener)
        );
        self.holding = false;
        self.settle();
        true
    }

    /// A client leaves.
    fn leave(&mut self) {
        self.slots += 1;
        self.settle();
    }
}

#[test]
fn merino_listens_on_every_resolved_address() {
    let mut merino = Merino::new(localhost(), no_auth(), Vec::new(), None);
    let addrs = merino.local_addrs().to_vec();
    assert!(!addrs.is_empty(), "expected at least one bound address");
    assert_eq!(addrs, vec![v6(4000), v4(4001)]);
    assert_eq!(merino.local_addr(), Ok(v6(4000)));
    assert_eq!(merino.serve(), addrs);

    let mut door = Door::new(addrs.len(), merino.max_connections());
    for (i, addr) in addrs.iter().enumerate() {
        assert!(door.knock(i));
        assert_eq!(greet(merino.new_client(Some(*addr)), &[0x00]), 0x00);
    }

    // the listeners are gone once they are served
    assert_eq!(
        merino.local_addr(),
        Err(IoError::new(IoErrorKind::AddrNotAvailable, "no listeners bound"))
    );
    assert!(merino.local_addrs().is_empty());
}

#[test]
fn listens_on_every_resolved_address() {
    let server = SocksServer::bind(localhost(), no_auth(), Vec::new(), None);
    let addrs = server.local_addrs().to_vec();
    assert!(!addrs.is_empty(), "expected at least one bound address");
    assert_eq!(addrs, vec![v6(4000), v4(4001)]);
    assert_eq!(server.local_addr(), v6(4000));

    let mut door = Door::new(addrs.len(), server.max_connections());
    for (i, addr) in addrs.iter().enumerate() {
        assert!(door.knock(i));
        assert_eq!(greet(server.new_client(Some(*addr)), &[0x00]), 0x00);
    }
}

#[test]
fn lone_client_is_served_at_either_address() {
    for max in [0, 1] {
        for first in [0, 1] {
            let mut server = SocksServer::bind(localhost(), no_auth(), Vec::new(), None);
            server.set_max_connections(max);
            let addrs = server.local_addrs().to_vec();
            let mut door = Door::new(addrs.len(), server.max_connections());
            assert!(door.knock(first));
            assert_eq!(greet(server.new_client(Some(addrs[first])), &[0x00]), 0x00);
            // another waits, at whichever address, until the first has left
            assert!(!door.knock(0));
            assert!(!door.knock(1));
            door.leave();
            assert!(door.knock(1 - first));
            assert_eq!(greet(server.new_client(Some(addrs[1 - first])), &[0x00]), 0x00);
        }
    }
}

#[test]
fn listeners_take_turns() {
    let mut accept_loop = AcceptLoop::new(3);
    assert_eq!(accept_loop.polling_order(), vec![0, 1, 2]);
    accept_loop.on_event(AcceptEvent::Acquired);
    assert_eq!(accept_loop.on_event(AcceptEvent::Accepted(0)), AcceptAction::Serve(0));
    assert_eq!(accept_loop.polling_order(), vec![1, 2, 0]);
    accept_loop.on_event(AcceptEvent::Acquired);
    assert_eq!(accept_loop.on_event(AcceptEvent::Failed(1)), AcceptAction::Release);
    assert_eq!(accept_loop.polling_order(), vec![2, 0, 1]);
    accept_loop.on_event(AcceptEvent::Acquired);
    assert_eq!(accept_loop.on_event(AcceptEvent::Accepted(2)), AcceptAction::Serve(2));
    assert_eq!(accept_loop.polling_order(), vec![0, 1, 2]);
    // there is no such listener
    accept_loop.on_event(AcceptEvent::Acquired);
    assert_eq!(accept_loop.on_event(AcceptEvent::Accepted(3)), AcceptAction::Ignore);
}

#[test]
fn nothing_is_accepted_without_listeners() {
    let mut accept_loop = AcceptLoop::new(0);
    assert!(accept_loop.is_stopped());
    assert!(accept_loop.polling_order().is_empty());
    assert_eq!(accept_loop.on_event(AcceptEvent::Acquired), AcceptAction::Ignore);
}

#[test]
fn bind_all_reports_bind_failure() {
    let mut attempts: BindAttempts<SocketAddr> = BindAttempts::new();
    attempts.record(Err(IoError::new(IoErrorKind::Other, "first")));
    attempts.record(Err(IoError::new(IoErrorKind::AddrInUse, "Address already in use")));
    let err = attempts.finish("127.0.0.1", 4000).unwrap_err();
    assert_eq!(err.kind, IoErrorKind::AddrInUse);
}

#[test]
fn addresses_that_fail_to_bind_are_skipped() {
    let mut attempts = BindAttempts::new();
    attempts.record(Err(IoError::new(IoErrorKind::AddrInUse, "taken")));
    attempts.record(Ok(1u32));
    attempts.record(Err(IoError::new(IoErrorKind::AddrInUse, "taken")));
    attempts.record(Ok(2));
    assert_eq!(attempts.finish("localhost", 1080), Ok(vec![1, 2]));
}

#[test]
fn names_without_addresses_are_reported() {
    assert_eq!(
        addresses_to_bind("nowhere", &Vec::new()),
        Err(IoError::new(
            IoErrorKind::AddrNotAvailable,
            "no addresses resolved for nowhere"
        ))
    );
    let attempts: BindAttempts<u32> = BindAttempts::new();
    assert_eq!(
        attempts.finish("nowhere", 1080),
        Err(IoError::new(
            IoErrorKind::AddrNotAvailable,
            "could not bind any address for nowhere:1080"
        ))
    );
}

#[test]
fn zero_connections_are_clamped_to_one() {
    let mut merino = Merino::new(vec![v4(1080)], no_auth(), Vec::new(), None);
    assert_eq!(merino.max_connections(), DEFAULT_MAX_CONNECTIONS);
    assert_eq!(DEFAULT_MAX_CONNECTIONS, 1024);
    merino.set_max_connections(0);
    assert_eq!(merino.max_connections(), 1);
    merino.set_max_connections(7);
    assert_eq!(merino.max_connections(), 7);
    let mut server = SocksServer::bind(vec![v4(1080)], no_auth(), Vec::new(), None);
    assert_eq!(server.max_connections(), DEFAULT_MAX_CONNECTIONS);
    server.set_max_connections(0);
    assert_eq!(server.max_connections(), 1);
}

/// Two clients connect to a server with `slots` slots, one after the other:
/// how many are served while the first stays, and how many once it has left.
fn serve_two(slots: usize) -> (usize, usize) {
    let mut door = Door::new(1, slots);
    let first = door.knock(0);
    let second = door.knock(0);
    assert!(first);
    door.leave();
    let served = usize::from(first) + usize::from(second);
    let then = served + usize::from(!second && door.knock(0));
    (served, then)
}

#[test]
fn merino_connection_cap_throttles_excess_clients() {
    let mut merino = Merino::new(vec![v4(1080)], no_auth(), Vec::new(), None);
    merino.set_max_connections(1);
    assert_eq!(serve_two(merino.max_connections()), (1, 2));
    merino.set_max_connections(2);
    assert_eq!(serve_two(merino.max_connections()), (2, 2));
}

#[test]
fn actix_connection_cap_throttles_excess_clients() {
    let mut server = SocksServer::bind(vec![v4(1080)], no_auth(), Vec::new(), None);
    server.set_max_connections(1);
    assert_eq!(serve_two(server.max_connections()), (1, 2));
    server.set_max_connections(2);
    assert_eq!(serve_two(server.max_connections()), (2, 2));
}

#[test]
fn failed_accepts_give_the_slot_back() {
    let mut accept_loop = AcceptLoop::new(1);
    assert_eq!(accept_loop.on_event(AcceptEvent::Acquired), AcceptAction::Accept);
    assert_eq!(accept_loop.on_event(AcceptEvent::Failed(0)), AcceptAction::Release);
    // nothing is accepted without a slot
    assert_eq!(accept_loop.on_event(AcceptEvent::Accepted(0)), AcceptAction::Ignore);
    assert_eq!(accept_loop.on_event(AcceptEvent::Exhausted), AcceptAction::Stop);
    assert!(accept_loop.is_stopped());
    assert_eq!(accept_loop.on_event(AcceptEvent::Acquired), AcceptAction::Ignore);
}

// ---------------------------------------------------------------- configuration
#[test]
fn log_level_maps_verbosity() {
    assert_eq!(log_level_for(0), "merino=INFO");
    assert_eq!(log_level_for(1), "merino=DEBUG");
    assert_eq!(log_level_for(2), "merino=TRACE");
    assert_eq!(log_level_for(9), "merino=INFO");
}

#[test]
fn explicit_log_filter_takes_precedence() {
    assert_eq!(log_filter(false, None, 1), Some("merino=DEBUG"));
    assert_eq!(log_filter(false, Some("warn"), 1), Some("warn"));
    assert_eq!(log_filter(true, Some("warn"), 1), None);
}

#[test]
fn auth_methods_selection() {
    assert_eq!(
        select_auth_methods(true, None),
        vec![AuthMethods::NoAuth.code()]
    );
    assert_eq!(
        select_auth_methods(true, Some("u.csv")),
        vec![AuthMethods::NoAuth.code(), AuthMethods::UserPass.code()]
    );
    assert_eq!(
        select_auth_methods(false, Some("u.csv")),
        vec![AuthMethods::UserPass.code()]
    );
    assert_eq!(
        select_auth_methods(false, None),
        vec![AuthMethods::NoAuth.code()]
    );
}

#[test]
fn users_file_makes_authentication_mandatory() {
    let methods = select_auth_methods(false, Some("u.csv"));
    assert_eq!(choose_method(&methods, &[0]), AuthMethods::NoMethods);
    assert_eq!(choose_method(&methods, &[0, 2]), AuthMethods::UserPass);
    let methods = select_auth_methods(false, None);
    assert_eq!(choose_method(&methods, &[2]), AuthMethods::NoMethods);
    assert_eq!(choose_method(&methods, &[2, 0]), AuthMethods::NoAuth);
}

#[test]
fn private_users_files_are_accepted() {
    assert!(check_users_file(0o600, false, "\"u.csv\"").is_ok());
    assert!(check_users_file(0o100400, false, "\"u.csv\"").is_ok());
    assert!(check_users_file(0o644, true, "\"u.csv\"").is_ok());
}

#[test]
fn open_users_files_are_rejected() {
    for mode in [0o644, 0o640, 0o610, 0o604, 0o601, 0o100777] {
        assert!(check_users_file(mode, false, "\"u.csv\"").is_err());
    }
    assert_eq!(
        check_users_file(0o100644, false, "\"u.csv\""),
        Err(IoError::new(
            IoErrorKind::PermissionDenied,
            "Permissions 644 for \"u.csv\" are too open. It is recommended that your users \
             file is NOT accessible by others. To override this check, set --allow-insecure"
        ))
    );
}

#[test]
fn empty_users_files_are_rejected() {
    assert_eq!(
        require_users(Vec::new(), "\"u.csv\""),
        Err(IoError::new(
            IoErrorKind::InvalidData,
            "No users loaded from \"u.csv\". Check configuration."
        ))
    );
    let users = vec![User::new("alice", "secret"), User::new("bob", "hunter2")];
    assert_eq!(require_users(users.clone(), "\"u.csv\""), Ok(users));
}
