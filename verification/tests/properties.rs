use merino::{
    parse_greeting, parse_request, parse_udp_header, parse_userpass, pretty_print_addr, AddrType,
    ResponseCode, SockCommand, SocksReply,
};

const CODES: [ResponseCode; 9] = [
    ResponseCode::Success,
    ResponseCode::Failure,
    ResponseCode::RuleFailure,
    ResponseCode::NetworkUnreachable,
    ResponseCode::HostUnreachable,
    ResponseCode::ConnectionRefused,
    ResponseCode::TtlExpired,
    ResponseCode::CommandNotSupported,
    ResponseCode::AddrTypeNotSupported,
];

/// Byte strings of every length up to 255, from a linear congruence.
fn samples() -> Vec<Vec<u8>> {
    let mut state: u32 = 12345;
    let mut samples = Vec::new();
    for len in 0..256 {
        for head in [[0x05, 0x01], [0x05, 0x02], [0x01, 0x03], [0x00, 0x00]] {
            let mut data = Vec::new();
            for i in 0..len {
                state = state.wrapping_mul(1664525).wrapping_add(1013904223);
                let byte = (state >> 24) as u8;
                data.push(match i {
                    0 | 1 => head[i],
                    3 => byte % 5,
                    _ => byte,
                });
            }
            samples.push(data);
        }
    }
    samples
}

#[test]
fn parsers_never_panic() {
    for data in samples() {
        let _ = parse_greeting(&data);
        let _ = parse_userpass(&data);
        let _ = parse_request(&data);
        let _ = parse_udp_header(&data);
        let _ = pretty_print_addr(&AddrType::V4, &data);
        let _ = pretty_print_addr(&AddrType::V6, &data);
        let _ = pretty_print_addr(&AddrType::Domain, &data);
    }
}

#[test]
fn consumed_never_exceeds_input() {
    let mut parsed = [0; 4];
    for data in samples() {
        if let Ok((_, _, _, consumed)) = parse_greeting(&data) {
            assert!(consumed <= data.len());
            parsed[0] += 1;
        }
        if let Ok((_, consumed)) = parse_userpass(&data) {
            assert!(consumed <= data.len());
            parsed[1] += 1;
        }
        if let Ok((_, consumed)) = parse_request(&data) {
            assert!(consumed <= data.len());
            parsed[2] += 1;
        }
        if let Ok((_, consumed)) = parse_udp_header(&data) {
            assert!(consumed <= data.len());
            parsed[3] += 1;
        }
    }
    assert!(parsed.iter().all(|n| *n > 0));
}

#[test]
fn parsed_addr_length_matches_type() {
    for data in samples() {
        if let Ok((req, _)) = parse_request(&data) {
            match req.addr_type {
                AddrType::V4 => assert_eq!(req.addr.len(), 4),
                AddrType::V6 => assert_eq!(req.addr.len(), 16),
                AddrType::Domain => assert!(req.addr.len() <= 255),
            }
        }
    }
}

#[test]
fn ipv4_request_roundtrip() {
    for (cmd, ip, port) in [(1u8, [127, 0, 0, 1], 80u16), (2, [0; 4], 0), (3, [255; 4], 65535)] {
        let mut frame = vec![0x05, cmd, 0x00, 0x01];
        frame.extend_from_slice(&ip);
        frame.extend_from_slice(&port.to_be_bytes());

        let (req, consumed) = parse_request(&frame).unwrap();
        assert_eq!(consumed, frame.len());
        assert_eq!(Some(req.command), SockCommand::from(usize::from(cmd)));
        assert_eq!(req.addr_type, AddrType::V4);
        assert_eq!(req.addr, ip.to_vec());
        assert_eq!(req.port, port);
    }
}

#[test]
fn ipv6_request_roundtrip() {
    for (cmd, fill, port) in [(1u8, 0u8, 443u16), (2, 0xAB, 256), (3, 0xFF, 255)] {
        let ip = [fill; 16];
        let mut frame = vec![0x05, cmd, 0x00, 0x04];
        frame.extend_from_slice(&ip);
        frame.extend_from_slice(&port.to_be_bytes());

        let (req, consumed) = parse_request(&frame).unwrap();
        assert_eq!(consumed, frame.len());
        assert_eq!(Some(req.command), SockCommand::from(usize::from(cmd)));
        assert_eq!(req.addr_type, AddrType::V6);
        assert_eq!(req.addr, ip.to_vec());
        assert_eq!(req.port, port);
    }
}

#[test]
fn domain_request_roundtrip() {
    for len in [0usize, 1, 11, 254, 255] {
        let domain: Vec<u8> = (0..len).map(|i| i as u8).collect();
        let mut frame = vec![0x05, 0x01, 0x00, 0x03, domain.len() as u8];
        frame.extend_from_slice(&domain);
        frame.extend_from_slice(&8080u16.to_be_bytes());

        let (req, consumed) = parse_request(&frame).unwrap();
        assert_eq!(consumed, frame.len());
        assert_eq!(req.addr_type, AddrType::Domain);
        assert_eq!(req.addr, domain);
        assert_eq!(req.port, 8080);
    }
}

#[test]
fn reply_is_always_ten_bytes() {
    for (code, status) in CODES.iter().enumerate() {
        let reply = SocksReply::new(*status);
        assert_eq!(reply.as_bytes().len(), 10);
        assert_eq!(reply.as_bytes()[0], 0x05);
        assert_eq!(usize::from(reply.as_bytes()[1]), code);
        assert_eq!(reply.as_bytes()[2], 0x00);
    }
}

#[test]
fn addr_and_command_parsers_are_total() {
    for n in [0, 1, 5, 255, 256, 65536, usize::MAX] {
        let _ = AddrType::from(n);
        let _ = SockCommand::from(n);
    }
    assert_eq!(AddrType::from(usize::MAX), None);
    assert_eq!(SockCommand::from(257), None);
}

#[test]
fn trailing_bytes_are_left_alone() {
    let frame = [0x05, 0x01, 0x00, 0x03, 2, b'a', b'b', 0, 80];
    let mut longer = frame.to_vec();
    longer.extend_from_slice(b"GET / HTTP/1.1");
    assert_eq!(parse_request(&frame), parse_request(&longer));
    assert_eq!(parse_request(&longer).unwrap().1, frame.len());
}
