use ingress_proxy::error::ProxyError;
use ingress_proxy::request::{Atype, Command, InboundRequest, IpAddress, TransportProtocol};
use ingress_proxy::trojan::{authorize, parse_address, parse_header, ParseError};

const DIGEST: &str = "a3f1c2d4e5b6a7980123456789abcdef0123456789abcdef01234567";

fn header(cmd: u8, addr: &[u8], port: u16) -> Vec<u8> {
    let mut v = DIGEST.as_bytes().to_vec();
    v.push(cmd);
    v.extend_from_slice(addr);
    v.push((port >> 8) as u8);
    v.push((port & 0xff) as u8);
    v.push(13);
    v.push(10);
    v
}

#[test]
fn digest_fixture_has_fixed_width() {
    assert_eq!(DIGEST.len(), 56);
}

#[test]
fn connect_ipv4_with_payload() {
    let mut b = header(1, &[1, 93, 184, 216, 34], 80);
    let header_len = b.len();
    b.extend_from_slice(b"GET / \r\n\r\n");
    let (req, n) = parse_header(&b).unwrap();
    assert_eq!(n, header_len);
    assert_eq!(n, 66);
    assert_eq!(&b[n..], b"GET / \r\n\r\n");
    assert_eq!(req.digest, DIGEST);
    assert_eq!(req.get_hex(), DIGEST);
    assert_eq!(req.command, Command::Connect);
    assert_eq!(req.port, 80);
    assert!(matches!(req.addr, IpAddress::V4([93, 184, 216, 34])));
    let (inbound, id) = authorize(req, true, 42).unwrap();
    assert_eq!(id, 42);
    assert_eq!(inbound.atype, Atype::IPv4);
    assert_eq!(inbound.command, Command::Connect);
    assert_eq!(inbound.port, 80);
    assert_eq!(inbound.transport_protocol, TransportProtocol::TCP);
    assert_eq!(inbound.addr_port(), ("93.184.216.34".to_string(), 80));
}

#[test]
fn udp_associate_domain() {
    let mut addr = vec![3, 11];
    addr.extend_from_slice(b"example.com");
    let b = header(3, &addr, 53);
    let (req, n) = parse_header(&b).unwrap();
    assert_eq!(n, b.len());
    assert_eq!(req.command, Command::UdpAssociate);
    let inbound = req.inbound_request();
    assert_eq!(inbound.atype, Atype::DomainName);
    assert_eq!(inbound.transport_protocol, TransportProtocol::UDP);
    assert_eq!(inbound.addr_port(), ("example.com".to_string(), 53));
}

#[test]
fn connect_ipv6() {
    let mut addr = vec![4];
    addr.extend_from_slice(&[0x20, 0x01, 0x0d, 0xb8, 0, 0, 0, 0, 0, 0, 0, 0, 0, 0, 0, 0x01]);
    let b = header(1, &addr, 443);
    let (req, _) = parse_header(&b).unwrap();
    let inbound = req.inbound_request();
    assert_eq!(inbound.atype, Atype::IPv6);
    assert_eq!(inbound.addr_port(), ("2001:db8:0:0:0:0:0:1".to_string(), 443));
}

#[test]
fn rejected_digest_gives_no_request() {
    let b = header(1, &[1, 10, 0, 0, 1], 22);
    let (req, _) = parse_header(&b).unwrap();
    assert!(matches!(authorize(req, false, 7), Err(ProxyError::Auth)));
}

#[test]
fn short_digest_is_truncated() {
    assert!(matches!(parse_header(&DIGEST.as_bytes()[..20]), Err(ParseError::Truncated)));
    assert!(matches!(parse_header(&[]), Err(ParseError::Truncated)));
}

#[test]
fn every_prefix_is_truncated() {
    let b = header(1, &[1, 93, 184, 216, 34], 80);
    for k in 0..b.len() {
        assert!(matches!(parse_header(&b[..k]), Err(ParseError::Truncated)), "prefix {}", k);
    }
}

#[test]
fn invalid_address_type() {
    let b = header(1, &[2, 1, 2, 3, 4], 80);
    assert!(matches!(parse_header(&b), Err(ParseError::InvalidAddressType)));
}

#[test]
fn invalid_command() {
    let b = header(2, &[1, 1, 2, 3, 4], 80);
    assert!(matches!(parse_header(&b), Err(ParseError::InvalidCommand)));
}

#[test]
fn invalid_terminator() {
    let mut b = header(1, &[1, 1, 2, 3, 4], 80);
    let last = b.len() - 1;
    b[last] = b'x';
    assert!(matches!(parse_header(&b), Err(ParseError::InvalidTerminator)));
}

#[test]
fn invalid_digest_text() {
    let mut b = header(1, &[1, 1, 2, 3, 4], 80);
    b[0] = 0xff;
    assert!(matches!(parse_header(&b), Err(ParseError::InvalidDigest)));
}

#[test]
fn invalid_domain_text() {
    let b = header(1, &[3, 2, 0xc3, 0x28], 80);
    assert!(matches!(parse_header(&b), Err(ParseError::InvalidDomain)));
}

#[test]
fn truncated_domain() {
    let b = header(1, &[3, 200, b'a', b'b'], 80);
    assert!(matches!(parse_header(&b), Err(ParseError::Truncated)));
}

#[test]
fn address_at_offset() {
    let b = [9, 9, 1, 127, 0, 0, 1, 7];
    let (a, end) = parse_address(&b, 2).unwrap();
    assert!(matches!(a, IpAddress::V4([127, 0, 0, 1])));
    assert_eq!(end, 7);
}

#[test]
fn new_request_keeps_fields() {
    let r = InboundRequest::new(
        Atype::IPv4,
        IpAddress::V4([10, 1, 2, 255]),
        Command::Connect,
        8080,
        TransportProtocol::GRPC,
    );
    assert_eq!(r.atype, Atype::IPv4);
    assert_eq!(r.command, Command::Connect);
    assert_eq!(r.port, 8080);
    assert_eq!(r.transport_protocol, TransportProtocol::GRPC);
    assert_eq!(r.addr_port(), ("10.1.2.255".to_string(), 8080));
}

#[test]
fn ipv6_text_in_hex_groups() {
    let r = InboundRequest::new(
        Atype::IPv6,
        IpAddress::V6([0xfe, 0x80, 0, 0, 0, 0, 0, 0, 0xab, 0xcd, 0, 0x0f, 0x12, 0x34, 0xff, 0xff]),
        Command::Connect,
        1,
        TransportProtocol::TCP,
    );
    assert_eq!(r.addr_port().0, "fe80:0:0:0:abcd:f:1234:ffff");
}
