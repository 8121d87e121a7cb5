use merino::{
    addr_to_socket, check_credentials, choose_method, connect_timeout_error, ct_eq,
    encode_udp_header, expected_ip, host_and_port, is_known, parse_greeting, parse_request, parse_udp_header,
    parse_userpass, pretty_print_addr, truncated, AddrType, AuthMethods, IoError, IoErrorKind,
    IpAddr, MerinoError, ResponseCode, SockCommand, SocketAddr, SocksReply, Target, User,
    DEFAULT_CONNECT_TIMEOUT,
};
use std::time::Duration;

/// The octets of an IPv6 address, given its groups.
fn v6(groups: [u16; 8]) -> [u8; 16] {
    let mut octets = [0u8; 16];
    for (i, group) in groups.iter().enumerate() {
        octets[2 * i..2 * i + 2].copy_from_slice(&group.to_be_bytes());
    }
    octets
}

#[test]
fn addr_type_from_byte() {
    assert_eq!(AddrType::from(1), Some(AddrType::V4));
    assert_eq!(AddrType::from(3), Some(AddrType::Domain));
    assert_eq!(AddrType::from(4), Some(AddrType::V6));
    assert_eq!(AddrType::from(0), None);
    assert_eq!(AddrType::from(2), None);
    assert_eq!(AddrType::from(255), None);
}

#[test]
fn sock_command_from_byte() {
    assert!(matches!(SockCommand::from(1), Some(SockCommand::Connect)));
    assert!(matches!(SockCommand::from(2), Some(SockCommand::Bind)));
    assert!(matches!(
        SockCommand::from(3),
        Some(SockCommand::UdpAssosiate)
    ));
    assert!(SockCommand::from(0).is_none());
    assert!(SockCommand::from(4).is_none());
    assert!(SockCommand::from(255).is_none());
}

#[test]
fn addr_type_and_command_bytes_are_read_back() {
    for t in [AddrType::V4, AddrType::Domain, AddrType::V6] {
        assert_eq!(AddrType::from(usize::from(t.code())), Some(t));
    }
    for command in [SockCommand::Connect, SockCommand::Bind, SockCommand::UdpAssosiate] {
        assert_eq!(SockCommand::from(usize::from(command.code())), Some(command));
    }
}

#[test]
fn pretty_print_ipv4() {
    assert_eq!(
        pretty_print_addr(&AddrType::V4, &[127, 0, 0, 1]),
        "127.0.0.1"
    );
    assert_eq!(pretty_print_addr(&AddrType::V4, &[8, 8, 4, 4]), "8.8.4.4");
}

#[test]
fn pretty_print_ipv6() {
    let raw = v6([0x2001, 0xdb8, 0, 0, 0, 0, 0, 1]);
    assert_eq!(
        pretty_print_addr(&AddrType::V6, &raw),
        "2001:db8:0:0:0:0:0:1"
    );
}

#[test]
fn pretty_print_domain() {
    assert_eq!(
        pretty_print_addr(&AddrType::Domain, b"example.com"),
        "example.com"
    );
}

#[test]
fn pretty_print_undecodable_domain() {
    assert_eq!(
        pretty_print_addr(&AddrType::Domain, &[b'a', 0xFF, b'b']),
        "a\u{FFFD}b"
    );
    assert_eq!(pretty_print_addr(&AddrType::Domain, &[]), "");
}

#[test]
fn pretty_print_short_addresses_do_not_panic() {
    assert!(pretty_print_addr(&AddrType::V4, &[1, 2]).contains("invalid"));
    assert!(pretty_print_addr(&AddrType::V6, &[1, 2, 3]).contains("invalid"));
}

#[test]
fn pretty_print_placeholders_name_the_length() {
    assert_eq!(
        pretty_print_addr(&AddrType::V4, &[1, 2]),
        "<invalid ipv4: 2 bytes>"
    );
    assert_eq!(
        pretty_print_addr(&AddrType::V6, &[0; 15]),
        "<invalid ipv6: 15 bytes>"
    );
}

#[test]
fn pretty_print_shows_every_byte_of_a_long_ipv4() {
    assert_eq!(
        pretty_print_addr(&AddrType::V4, &[10, 20, 30, 40, 50]),
        "10.20.30.40.50"
    );
}

#[test]
fn socks_reply_wire_format() {
    let success = SocksReply::new(ResponseCode::Success);
    assert_eq!(
        success.as_bytes(),
        [0x05, 0x00, 0x00, 0x01, 0, 0, 0, 0, 0, 0]
    );

    let failure = SocksReply::new(ResponseCode::ConnectionRefused);
    assert_eq!(
        failure.as_bytes(),
        [0x05, 0x05, 0x00, 0x01, 0, 0, 0, 0, 0, 0]
    );
}

#[test]
fn socks_reply_with_ipv4_bound_addr() {
    let reply = SocksReply::with_addr(
        ResponseCode::Success,
        SocketAddr::V4 { ip: [127, 0, 0, 1], port: 4321 },
    );
    let port = 4321u16.to_be_bytes();
    assert_eq!(
        reply.as_bytes(),
        &[0x05, 0x00, 0x00, 0x01, 127, 0, 0, 1, port[0], port[1]]
    );
    assert_eq!(reply.into_bytes().len(), 10);
}

#[test]
fn socks_reply_with_ipv6_bound_addr() {
    let reply = SocksReply::with_addr(
        ResponseCode::Success,
        SocketAddr::V6 {
            ip: v6([0x2001, 0xdb8, 0, 0, 0, 0, 0, 1]),
            port: 443,
            flowinfo: 0,
            scope_id: 0,
        },
    );
    assert_eq!(reply.as_bytes().len(), 22);
    assert_eq!(reply.as_bytes()[0], 0x05);
    assert_eq!(reply.as_bytes()[1], 0x00);
    assert_eq!(reply.as_bytes()[3], 0x04);
    assert_eq!(
        &reply.as_bytes()[4..20],
        &[0x20, 0x01, 0x0d, 0xb8, 0, 0, 0, 0, 0, 0, 0, 0, 0, 0, 0, 1]
    );
    assert_eq!(&reply.as_bytes()[20..22], &443u16.to_be_bytes());
}

#[test]
fn method_and_response_codes_match_rfc() {
    assert_eq!(AuthMethods::NoAuth.code(), 0x00);
    assert_eq!(AuthMethods::UserPass.code(), 0x02);
    assert_eq!(AuthMethods::NoMethods.code(), 0xFF);

    assert_eq!(ResponseCode::Success.code(), 0x00);
    assert_eq!(ResponseCode::Failure.code(), 0x01);
    assert_eq!(ResponseCode::RuleFailure.code(), 0x02);
    assert_eq!(ResponseCode::NetworkUnreachable.code(), 0x03);
    assert_eq!(ResponseCode::HostUnreachable.code(), 0x04);
    assert_eq!(ResponseCode::ConnectionRefused.code(), 0x05);
    assert_eq!(ResponseCode::TtlExpired.code(), 0x06);
    assert_eq!(ResponseCode::CommandNotSupported.code(), 0x07);
    assert_eq!(ResponseCode::AddrTypeNotSupported.code(), 0x08);
}

#[test]
fn merino_error_to_response_code() {
    let socks: ResponseCode = MerinoError::Socks(ResponseCode::HostUnreachable).into();
    assert_eq!(socks.code(), ResponseCode::HostUnreachable.code());

    let io: ResponseCode = MerinoError::Io(IoError::other("boom")).into();
    assert_eq!(io.code(), ResponseCode::Failure.code());
}

#[test]
fn errors_are_described() {
    assert_eq!(
        MerinoError::from(IoError::other("boom")).message(),
        "IO error: boom"
    );
    assert_eq!(
        MerinoError::from(ResponseCode::TtlExpired).message(),
        "Socks error: TTL expired"
    );
    assert_eq!(ResponseCode::Success.message(), "Success");
    assert_eq!(ResponseCode::Failure.message(), "SOCKS5 Server Failure");
    assert_eq!(ResponseCode::RuleFailure.message(), "SOCKS5 Rule failure");
    assert_eq!(ResponseCode::NetworkUnreachable.message(), "network unreachable");
    assert_eq!(ResponseCode::HostUnreachable.message(), "host unreachable");
    assert_eq!(ResponseCode::ConnectionRefused.message(), "connection refused");
    assert_eq!(ResponseCode::CommandNotSupported.message(), "Command not supported");
    assert_eq!(
        ResponseCode::AddrTypeNotSupported.message(),
        "Addr Type not supported"
    );
}

#[test]
fn default_connect_timeout_is_reasonable() {
    assert!(DEFAULT_CONNECT_TIMEOUT >= Duration::from_secs(5).as_nanos());
    assert_eq!(DEFAULT_CONNECT_TIMEOUT, Duration::from_secs(30).as_nanos());
}

#[test]
fn connect_timeout_maps_to_ttl_expired() {
    assert!(matches!(
        connect_timeout_error(),
        MerinoError::Socks(ResponseCode::TtlExpired)
    ));
}

#[test]
fn addr_to_socket_ipv4() {
    let addr = addr_to_socket(&AddrType::V4, &[127, 0, 0, 1], 8080).unwrap();
    assert_eq!(
        addr,
        Target::Socket(SocketAddr::V4 { ip: [127, 0, 0, 1], port: 8080 })
    );
}

#[test]
fn addr_to_socket_ipv6() {
    let raw = v6([0x2001, 0xdb8, 0, 0, 0, 0, 0, 1]);
    let addr = addr_to_socket(&AddrType::V6, &raw, 443).unwrap();
    assert_eq!(
        addr,
        Target::Socket(SocketAddr::V6 { ip: raw, port: 443, flowinfo: 0, scope_id: 0 })
    );
}

#[test]
fn addr_to_socket_rejects_short_addresses() {
    assert!(addr_to_socket(&AddrType::V4, &[1, 2, 3], 0).is_err());
    assert!(addr_to_socket(&AddrType::V6, &[0u8; 15], 0).is_err());
    assert_eq!(
        addr_to_socket(&AddrType::V4, &[1, 2, 3], 0),
        Err(IoError::new(IoErrorKind::InvalidInput, "IPv4 address must be 4 bytes"))
    );
    assert_eq!(
        addr_to_socket(&AddrType::V6, &[0u8; 15], 0),
        Err(IoError::new(IoErrorKind::InvalidInput, "IPv6 address must be 16 bytes"))
    );
}

#[test]
fn addr_to_socket_leaves_names_to_be_looked_up() {
    assert_eq!(
        addr_to_socket(&AddrType::Domain, b"example.com", 443),
        Ok(Target::Lookup("example.com:443".to_string()))
    );
    assert_eq!(
        addr_to_socket(&AddrType::Domain, &[0xFF], 65535),
        Ok(Target::Lookup("\u{FFFD}:65535".to_string()))
    );
    assert_eq!(
        addr_to_socket(&AddrType::Domain, b"", 0),
        Ok(Target::Lookup(":0".to_string()))
    );
}

#[test]
fn hosts_and_ports_are_joined() {
    assert_eq!(host_and_port("localhost".to_string(), 1080), "localhost:1080");
    assert_eq!(host_and_port(String::new(), 0), ":0");
}

#[test]
fn known_users_are_found() {
    let users = vec![User::new("alice", "secret"), User::new("bob", "hunter2")];
    assert!(is_known(&users, &User::new("alice", "secret")));
    assert!(!is_known(&users, &User::new("alice", "hunter2")));
    assert!(!is_known(&Vec::new(), &User::new("", "")));
}

#[test]
fn parse_greeting_basic() {
    let (version, nmethods, methods, consumed) =
        parse_greeting(&[0x05, 0x02, 0x00, 0x02]).unwrap();
    assert_eq!(version, 0x05);
    assert_eq!(nmethods, 0x02);
    assert_eq!(methods, vec![0x00, 0x02]);
    assert_eq!(consumed, 4);
}

#[test]
fn parse_greeting_leaves_pipelined_bytes() {
    let (_, _, methods, consumed) = parse_greeting(&[0x05, 0x01, 0x00, 0xAA, 0xBB]).unwrap();
    assert_eq!(methods, vec![0x00]);
    assert_eq!(consumed, 3);
}

#[test]
fn parse_greeting_truncated_errors() {
    assert!(parse_greeting(&[]).is_err());
    assert!(parse_greeting(&[0x05]).is_err());
    // claims two methods but supplies one
    assert!(parse_greeting(&[0x05, 0x02, 0x00]).is_err());
}

#[test]
fn parse_userpass_basic() {
    let frame = [0x01, 0x02, b'a', b'b', 0x03, b'x', b'y', b'z'];
    let (parsed, consumed) = parse_userpass(&frame).unwrap();
    assert_eq!(parsed.version, 0x01);
    assert_eq!(parsed.username, b"ab");
    assert_eq!(parsed.password, b"xyz");
    assert_eq!(consumed, frame.len());
}

#[test]
fn parse_userpass_truncated_errors() {
    assert!(parse_userpass(&[]).is_err());
    assert!(parse_userpass(&[0x01, 0x05, b'a']).is_err());
    // no password length byte
    assert!(parse_userpass(&[0x01, 0x01, b'a']).is_err());
    // password length exceeds body
    assert!(parse_userpass(&[0x01, 0x01, b'a', 0x04, b'b']).is_err());
}

#[test]
fn parse_request_ipv4_roundtrip() {
    let frame = [0x05, 0x01, 0x00, 0x01, 127, 0, 0, 1, 0x1F, 0x90];
    let (req, consumed) = parse_request(&frame).unwrap();
    assert_eq!(req.version, 0x05);
    assert_eq!(req.command, SockCommand::Connect);
    assert_eq!(req.addr_type, AddrType::V4);
    assert_eq!(req.addr, vec![127, 0, 0, 1]);
    assert_eq!(req.port, 8080);
    assert_eq!(consumed, frame.len());
}

#[test]
fn parse_request_domain_roundtrip() {
    let mut frame = vec![0x05, 0x01, 0x00, 0x03, 11];
    frame.extend_from_slice(b"example.com");
    frame.extend_from_slice(&443u16.to_be_bytes());
    let (req, consumed) = parse_request(&frame).unwrap();
    assert_eq!(req.addr_type, AddrType::Domain);
    assert_eq!(req.addr, b"example.com");
    assert_eq!(req.port, 443);
    assert_eq!(consumed, frame.len());
}

#[test]
fn parse_request_rejects_bad_command_and_addr_type() {
    assert!(matches!(
        parse_request(&[0x05, 0x09, 0x00, 0x01, 0, 0, 0, 0, 0, 0]),
        Err(MerinoError::Socks(ResponseCode::CommandNotSupported))
    ));
    assert!(matches!(
        parse_request(&[0x05, 0x01, 0x00, 0x02, 0, 0, 0, 0]),
        Err(MerinoError::Socks(ResponseCode::AddrTypeNotSupported))
    ));
}

#[test]
fn parse_request_rejects_bad_version() {
    assert_eq!(
        parse_request(&[0x04, 0x01, 0x00, 0x01, 127, 0, 0, 1, 0x1F, 0x90]),
        Err(MerinoError::Socks(ResponseCode::Failure))
    );
    // the version is judged before the command
    assert_eq!(
        parse_request(&[0x04, 0x09, 0x00, 0x02]),
        Err(MerinoError::Socks(ResponseCode::Failure))
    );
}

#[test]
fn parse_request_truncated_errors() {
    assert!(parse_request(&[0x05, 0x01, 0x00]).is_err());
    // claims 4-byte IPv4 but supplies 3
    assert!(parse_request(&[0x05, 0x01, 0x00, 0x01, 1, 2, 3]).is_err());
    // full address but no port
    assert!(parse_request(&[0x05, 0x01, 0x00, 0x01, 127, 0, 0, 1, 0x00]).is_err());
    // domain length exceeds body
    assert!(parse_request(&[0x05, 0x01, 0x00, 0x03, 200, b'a']).is_err());
}

#[test]
fn parse_request_truncated_domain_and_v6() {
    // domain ATYP with no length byte
    assert!(parse_request(&[0x05, 0x01, 0x00, 0x03]).is_err());
    // IPv6 ATYP with a short address
    assert!(parse_request(&[0x05, 0x01, 0x00, 0x04, 0, 0, 0, 0]).is_err());
}

#[test]
fn truncated_messages_share_one_error() {
    assert_eq!(
        truncated(),
        MerinoError::Io(IoError::new(
            IoErrorKind::UnexpectedEof,
            "truncated SOCKS message"
        ))
    );
    assert_eq!(parse_request(&[0x05, 0x01, 0x00]), Err(truncated()));
    assert_eq!(parse_greeting(&[]), Err(truncated()));
    assert_eq!(parse_userpass(&[]), Err(truncated()));
    assert_eq!(parse_udp_header(&[]), Err(truncated()));
}

#[test]
fn parse_udp_header_ipv4() {
    let frame = [0, 0, 0, 0x01, 127, 0, 0, 1, 0x1F, 0x90, b'h', b'i'];
    let (header, consumed) = parse_udp_header(&frame).unwrap();
    assert_eq!(header.frag, 0);
    assert_eq!(header.addr_type, AddrType::V4);
    assert_eq!(header.addr, &[127, 0, 0, 1]);
    assert_eq!(header.port, 8080);
    assert_eq!(consumed, 10);
    assert_eq!(&frame[consumed..], b"hi");
}

#[test]
fn parse_udp_header_domain_and_frag() {
    let mut frame = vec![0, 0, 0x03, 0x03, 11];
    frame.extend_from_slice(b"example.com");
    frame.extend_from_slice(&443u16.to_be_bytes());
    let (header, consumed) = parse_udp_header(&frame).unwrap();
    assert_eq!(header.frag, 0x03);
    assert_eq!(header.addr_type, AddrType::Domain);
    assert_eq!(header.addr, b"example.com");
    assert_eq!(header.port, 443);
    assert_eq!(consumed, frame.len());
}

#[test]
fn parse_udp_header_rejects_truncated_and_bad_type() {
    assert!(parse_udp_header(&[]).is_err());
    assert!(parse_udp_header(&[0, 0, 0]).is_err());
    // ATYP 0x02 is reserved
    assert!(matches!(
        parse_udp_header(&[0, 0, 0, 0x02]),
        Err(MerinoError::Socks(ResponseCode::AddrTypeNotSupported))
    ));
    // claims IPv4 but only 3 address bytes
    assert!(parse_udp_header(&[0, 0, 0, 0x01, 1, 2, 3]).is_err());
    // address present but no port
    assert!(parse_udp_header(&[0, 0, 0, 0x01, 127, 0, 0, 1, 0x00]).is_err());
}

#[test]
fn encode_udp_header_roundtrips() {
    let addr = SocketAddr::V4 { ip: [127, 0, 0, 1], port: 9000 };
    let encoded = encode_udp_header(addr);
    assert_eq!(encoded[0], 0);
    assert_eq!(encoded[1], 0);
    assert_eq!(encoded[2], 0);
    let (header, consumed) = parse_udp_header(&encoded).unwrap();
    assert_eq!(consumed, encoded.len());
    assert_eq!(header.addr, &[127, 0, 0, 1]);
    assert_eq!(header.port, 9000);
}

#[test]
fn encode_udp_header_ipv6() {
    let ip = v6([0x2001, 0xdb8, 0, 0, 0, 0, 0, 1]);
    let encoded = encode_udp_header(SocketAddr::V6 { ip, port: 53, flowinfo: 7, scope_id: 9 });
    let mut expected = vec![0, 0, 0, 0x04];
    expected.extend_from_slice(&ip);
    expected.extend_from_slice(&[0, 53]);
    assert_eq!(encoded, expected);
}

#[test]
fn expected_ip_only_accepts_concrete_addresses() {
    assert_eq!(
        expected_ip(&AddrType::V4, &[127, 0, 0, 1]),
        Some(IpAddr::V4([127, 0, 0, 1]))
    );
    assert_eq!(expected_ip(&AddrType::V4, &[0, 0, 0, 0]), None);
    assert_eq!(expected_ip(&AddrType::Domain, b"example.com"), None);
    assert_eq!(expected_ip(&AddrType::V4, &[1, 2]), None);
}

#[test]
fn expected_ip_of_ipv6_addresses() {
    let ip = v6([0, 0, 0, 0, 0, 0, 0, 1]);
    assert_eq!(expected_ip(&AddrType::V6, &ip), Some(IpAddr::V6(ip)));
    assert_eq!(expected_ip(&AddrType::V6, &[0; 16]), None);
    assert_eq!(expected_ip(&AddrType::V6, &ip[..15]), None);
}

#[test]
fn addresses_are_compared_by_value() {
    let a = SocketAddr::V4 { ip: [127, 0, 0, 1], port: 80 };
    let b = SocketAddr::V4 { ip: [127, 0, 0, 1], port: 81 };
    let c = SocketAddr::V6 { ip: [0; 16], port: 80, flowinfo: 0, scope_id: 0 };
    let d = SocketAddr::V6 { ip: [0; 16], port: 80, flowinfo: 0, scope_id: 1 };
    assert!(a.same(&a) && c.same(&c));
    assert!(!a.same(&b) && !a.same(&c) && !c.same(&d));
    assert!(a.ip().same(&b.ip()) && c.ip().same(&d.ip()));
    assert!(!a.ip().same(&c.ip()));
    assert_eq!(b.port(), 81);
}

#[test]
fn ct_eq_is_equality() {
    assert!(ct_eq(b"secret", b"secret"));
    assert!(!ct_eq(b"secret", b"secrez"));
    assert!(!ct_eq(b"secret", b"secret2"));
    assert!(!ct_eq(b"", b"x"));
    assert!(ct_eq(b"", b""));
}

#[test]
fn users_are_made_of_anything_that_becomes_text() {
    let user = User::new("alice", "secret");
    assert_eq!(user.username, "alice");
    assert_eq!(user, User::new(String::from("alice"), String::from("secret")));
    assert_ne!(user, User::new("alice", "other"));
}

#[test]
fn credentials_have_to_match_a_user() {
    let users = vec![User::new("alice", "secret"), User::new("bob", "hunter2")];
    let frame = |username: &[u8], password: &[u8]| {
        let mut frame = vec![0x01, username.len() as u8];
        frame.extend_from_slice(username);
        frame.push(password.len() as u8);
        frame.extend_from_slice(password);
        frame
    };
    let access = |bytes: &[u8]| check_credentials(&users, &parse_userpass(bytes).unwrap().0);
    assert!(access(&frame(b"alice", b"secret")));
    assert!(access(&frame(b"bob", b"hunter2")));
    // the name of one user does not go with the password of another
    assert!(!access(&frame(b"alice", b"hunter2")));
    assert!(!access(&frame(b"carol", b"secret")));
    assert!(!access(&frame(b"", b"")));
    assert!(!access(&frame(b"alice", &[0xFF, 0xFE])));
    let mut wrong_version = frame(b"alice", b"secret");
    wrong_version[0] = 0x02;
    assert!(!access(&wrong_version));
}

#[test]
fn undecodable_credentials_are_never_granted() {
    // not even where a user is configured with what they would be shown as
    let users = vec![User::new("alice", "\u{FFFD}"), User::new("\u{FFFD}", "secret")];
    let password = [0x01, 5, b'a', b'l', b'i', b'c', b'e', 1, 0xFF];
    assert!(!check_credentials(&users, &parse_userpass(&password).unwrap().0));
    let username = [0x01, 1, 0xFF, 6, b's', b'e', b'c', b'r', b'e', b't'];
    assert!(!check_credentials(&users, &parse_userpass(&username).unwrap().0));
    // the character itself is text like any other
    let text = [0x01, 5, b'a', b'l', b'i', b'c', b'e', 3, 0xEF, 0xBF, 0xBD];
    assert!(check_credentials(&users, &parse_userpass(&text).unwrap().0));
}

#[test]
fn shown_addresses_are_read_back() {
    for addr in [[0, 0, 0, 0], [1, 22, 203, 4], [12, 2, 0, 34], [255, 255, 255, 255]] {
        let shown = pretty_print_addr(&AddrType::V4, &addr);
        let read: Vec<u8> = shown.split('.').map(|n| n.parse().unwrap()).collect();
        assert_eq!(read, addr);
    }
    for groups in [[0; 8], [0x2001, 0xdb8, 0, 0, 0, 0, 0, 1], [0xffff; 8], [0x10, 1, 0xa, 0, 0, 9, 0x100, 0]] {
        let shown = pretty_print_addr(&AddrType::V6, &v6(groups));
        let read: Vec<u16> =
            shown.split(':').map(|n| u16::from_str_radix(n, 16).unwrap()).collect();
        assert_eq!(read, groups);
        assert!(!shown.contains("::"));
    }
}

#[test]
fn userpass_is_preferred_over_no_authentication() {
    assert_eq!(choose_method(&[0, 2], &[0, 2]), AuthMethods::UserPass);
    assert_eq!(choose_method(&[0, 2], &[0]), AuthMethods::NoAuth);
    assert_eq!(choose_method(&[0], &[2]), AuthMethods::NoMethods);
    assert_eq!(choose_method(&[2], &[0]), AuthMethods::NoMethods);
    assert_eq!(choose_method(&[0, 2], &[]), AuthMethods::NoMethods);
    // unknown methods are never chosen, even where both sides have them
    assert_eq!(choose_method(&[1, 0xFF], &[1, 0xFF]), AuthMethods::NoMethods);
}
