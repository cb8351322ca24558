use ingress_proxy::error::ProxyError;
use ingress_proxy::handler::{relay_counts, RelayKind, TcpHandler};
use ingress_proxy::packet::{encode_frame, frame_size, parse_frame};
use ingress_proxy::request::{Atype, Command, InboundRequest, IpAddress, TransportProtocol};
use ingress_proxy::server::{
    step, ConnAction, ConnEvent, ConnState, InboundConfig, SupportedProtocols, TcpServer,
    TrafficItem, DEFAULT_TASK_TIMEOUT,
};
use ingress_proxy::trojan::ParseError;

#[test]
fn relay_both_directions_complete() {
    assert_eq!(relay_counts(Some(17), Some(512)), Ok((17, 512)));
}

#[test]
fn relay_download_failed_keeps_upload() {
    assert_eq!(relay_counts(Some(17), None), Ok((17, 0)));
}

#[test]
fn relay_upload_failed_keeps_download() {
    assert_eq!(relay_counts(None, Some(9)), Ok((0, 9)));
}

#[test]
fn relay_both_failed() {
    assert_eq!(relay_counts(None, None), Err(ProxyError::Relay));
}

fn request(t: TransportProtocol) -> InboundRequest {
    InboundRequest::new(Atype::IPv4, IpAddress::V4([1, 2, 3, 4]), Command::Connect, 80, t)
}

#[test]
fn route_by_transport() {
    let h = TcpHandler::init();
    assert_eq!(h.route(&request(TransportProtocol::TCP)), Ok(RelayKind::Tcp));
    assert_eq!(h.route(&request(TransportProtocol::UDP)), Ok(RelayKind::Udp));
    assert_eq!(
        h.route(&request(TransportProtocol::GRPC)),
        Err(ProxyError::UnsupportedTransport)
    );
}

#[test]
fn frame_round_trip_ipv4() {
    let addr = IpAddress::V4([8, 8, 4, 4]);
    let f = encode_frame(&addr, 53, b"hello").unwrap();
    assert_eq!(f, vec![1, 8, 8, 4, 4, 0, 53, 0, 5, b'h', b'e', b'l', b'l', b'o']);
    assert_eq!(frame_size(&f), Some(f.len()));
    let (frame, end) = parse_frame(&f, 0).unwrap();
    assert_eq!(end, f.len());
    assert_eq!(frame.port, 53);
    assert_eq!(frame.payload, b"hello".to_vec());
    assert!(matches!(frame.addr, IpAddress::V4([8, 8, 4, 4])));
}

#[test]
fn two_frames_back_to_back() {
    let mut b = encode_frame(&IpAddress::V4([10, 0, 0, 1]), 1000, b"one").unwrap();
    let second = encode_frame(&IpAddress::Domain("dns.test".to_string()), 2000, b"second").unwrap();
    b.extend_from_slice(&second);
    let (f1, e1) = parse_frame(&b, 0).unwrap();
    assert!(matches!(f1.addr, IpAddress::V4([10, 0, 0, 1])));
    assert_eq!(f1.port, 1000);
    assert_eq!(f1.payload, b"one".to_vec());
    let (f2, e2) = parse_frame(&b, e1).unwrap();
    match &f2.addr {
        IpAddress::Domain(d) => assert_eq!(d, "dns.test"),
        _ => panic!("expected a domain"),
    }
    assert_eq!(f2.port, 2000);
    assert_eq!(f2.payload, b"second".to_vec());
    assert_eq!(e2, b.len());
}

#[test]
fn frame_size_waits_for_fixed_fields() {
    let f = encode_frame(&IpAddress::V4([1, 1, 1, 1]), 7, &[0u8; 300]).unwrap();
    assert_eq!(frame_size(&f[..8]), None);
    assert_eq!(frame_size(&f[..9]), Some(309));
    assert!(matches!(parse_frame(&f[..100], 0), Err(ParseError::Truncated)));
}

#[test]
fn frame_too_long_payload() {
    let big = vec![0u8; 65536];
    assert!(encode_frame(&IpAddress::V4([1, 1, 1, 1]), 7, &big).is_none());
    let max = vec![0u8; 65535];
    assert_eq!(encode_frame(&IpAddress::V4([1, 1, 1, 1]), 7, &max).unwrap().len(), 65535 + 9);
}

#[test]
fn frame_domain_too_long() {
    let name = "a".repeat(256);
    assert!(encode_frame(&IpAddress::Domain(name), 7, b"x").is_none());
}

#[test]
fn frame_ipv6() {
    let a = [0u8, 1, 2, 3, 4, 5, 6, 7, 8, 9, 10, 11, 12, 13, 14, 15];
    let f = encode_frame(&IpAddress::V6(a), 258, b"").unwrap();
    assert_eq!(f.len(), 1 + 16 + 4);
    assert_eq!(&f[17..], &[1, 2, 0, 0]);
    let (frame, _) = parse_frame(&f, 0).unwrap();
    assert!(matches!(frame.addr, IpAddress::V6(x) if x == a));
    assert!(frame.payload.is_empty());
}

#[test]
fn completed_connection_reports_once() {
    let (s1, a1) = step(
        ConnState::Accepting,
        ConnEvent::Accepted { account_id: 42, transport: TransportProtocol::TCP },
    );
    assert_eq!(a1, ConnAction::Dispatch(RelayKind::Tcp));
    assert_eq!(s1, ConnState::Relaying { account_id: 42 });
    let (s2, a2) = step(s1, ConnEvent::RelayFinished { upload: 17, download: 512 });
    assert_eq!(a2, ConnAction::Report(TrafficItem::new(42, 17, 512, 1)));
    assert_eq!(s2, ConnState::Done);
    let (_, a3) = step(s2, ConnEvent::RelayFinished { upload: 1, download: 1 });
    assert_eq!(a3, ConnAction::Close);
}

#[test]
fn expired_connection_reports_nothing() {
    let (s1, _) = step(
        ConnState::Accepting,
        ConnEvent::Accepted { account_id: 5, transport: TransportProtocol::UDP },
    );
    let (s2, a2) = step(s1, ConnEvent::Expired);
    assert_eq!(a2, ConnAction::Close);
    let (_, a3) = step(s2, ConnEvent::RelayFinished { upload: 3, download: 4 });
    assert_eq!(a3, ConnAction::Close);
}

#[test]
fn failed_accept_never_dispatches() {
    let (s1, a1) = step(ConnState::Accepting, ConnEvent::AcceptFailed(ProxyError::Auth));
    assert_eq!(a1, ConnAction::Close);
    assert_eq!(s1, ConnState::Done);
    let (_, a2) = step(s1, ConnEvent::Accepted { account_id: 1, transport: TransportProtocol::TCP });
    assert_eq!(a2, ConnAction::Close);
}

#[test]
fn unsupported_transport_closes() {
    let (s1, a1) = step(
        ConnState::Accepting,
        ConnEvent::Accepted { account_id: 1, transport: TransportProtocol::GRPC },
    );
    assert_eq!(a1, ConnAction::Close);
    assert_eq!(s1, ConnState::Done);
}

#[test]
fn relay_failure_closes_without_report() {
    let (s1, _) = step(
        ConnState::Accepting,
        ConnEvent::Accepted { account_id: 3, transport: TransportProtocol::TCP },
    );
    let (_, a2) = step(s1, ConnEvent::RelayFailed(ProxyError::DestinationRefused));
    assert_eq!(a2, ConnAction::Close);
}

#[test]
fn server_keeps_config() {
    let cfg = InboundConfig {
        address: "0.0.0.0".to_string(),
        port: 443,
        protocol: SupportedProtocols::TROJAN,
        tls: None,
    };
    let s = TcpServer::new(cfg).unwrap();
    assert_eq!(s.local_addr(), ("0.0.0.0".to_string(), 443));
    assert_eq!(s.inbound_config.protocol, SupportedProtocols::TROJAN);
    assert_eq!(DEFAULT_TASK_TIMEOUT, 300);
}
