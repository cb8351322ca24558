use vstd::prelude::*;
use crate::error::ProxyError;
use crate::request::{InboundRequest, TransportProtocol};

verus! {

/// The relay engine that serves a request.
#[derive(Debug, Clone, Copy, PartialEq, Eq, Structural)]
pub enum RelayKind {
    Tcp,
    Udp,
}

/// The relay engine for a declared transport, if there is one.
pub open spec fn relay_for(t: TransportProtocol) -> Result<RelayKind, ProxyError> {
    match t {
        TransportProtocol::TCP => Ok(RelayKind::Tcp),
        TransportProtocol::UDP => Ok(RelayKind::Udp),
        TransportProtocol::GRPC => Err(ProxyError::UnsupportedTransport),
    }
}

/// Picks the relay for authenticated requests.
#[derive(Debug)]
pub struct TcpHandler {}

impl TcpHandler {
    pub fn init() -> (r: TcpHandler) {
        TcpHandler {}
    }

    /// The relay for a request: TCP and UDP have one, any other declared
    /// transport is refused before anything is connected.
    pub fn route(&self, request: &InboundRequest) -> (r: Result<RelayKind, ProxyError>)
        ensures
            r == relay_for(request.transport_protocol),
    {
        route_transport(request.transport_protocol)
    }
}

/// The relay for a declared transport.
pub fn route_transport(t: TransportProtocol) -> (r: Result<RelayKind, ProxyError>)
    ensures
        r == relay_for(t),
{
    match t {
        TransportProtocol::TCP => Ok(RelayKind::Tcp),
        TransportProtocol::UDP => Ok(RelayKind::Udp),
        TransportProtocol::GRPC => Err(ProxyError::UnsupportedTransport),
    }
}

/// What a TCP relay reports from its two directions, each `Some` with the
/// bytes it copied or `None` where it failed: a failed direction counts
/// zero, and only when both fail does the relay fail.
pub fn relay_counts(upload: Option<u64>, download: Option<u64>) -> (r: Result<(u64, u64), ProxyError>)
    ensures
        (upload, download) matches (Some(u), Some(d)) ==> r == Ok::<(u64, u64), ProxyError>((u, d)),
        (upload, download) matches (Some(u), None) ==> r == Ok::<(u64, u64), ProxyError>((u, 0)),
        (upload, download) matches (None, Some(d)) ==> r == Ok::<(u64, u64), ProxyError>((0, d)),
        (upload is None && download is None) ==> r == Err::<(u64, u64), ProxyError>(
            ProxyError::Relay,
        ),
{
    match (upload, download) {
        (Some(u), Some(d)) => Ok((u, d)),
        (Some(u), None) => Ok((u, 0)),
        (None, Some(d)) => Ok((0, d)),
        (None, None) => Err(ProxyError::Relay),
    }
}

} // verus!
