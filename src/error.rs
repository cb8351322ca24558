use vstd::prelude::*;
use crate::trojan::ParseError;

verus! {

/// Why a connection ended without a relay, or with a failed one.
#[derive(Debug, Clone, Copy, PartialEq, Eq, Structural)]
pub enum ProxyError {
    /// The TLS handshake or the socket itself failed.
    Transport,
    /// The handshake was malformed or cut short.
    Parse(ParseError),
    /// The authenticator rejected the digest.
    Auth,
    /// The request asks for a transport that has no relay.
    UnsupportedTransport,
    /// The destination could not be resolved.
    DestinationUnresolved,
    /// The destination refused the connection, or no socket could be bound.
    DestinationRefused,
    /// Both directions of a relay failed.
    Relay,
    /// The connection outlived its time budget.
    Timeout,
}

} // verus!
