// Handshake parsing, datagram framing, relay decisions and the connection
// life cycle of a password-authenticated tunnelling proxy. Sockets, TLS and
// tasks live with the caller.

pub mod error;
pub mod handler;
pub mod packet;
pub mod request;
pub mod server;
pub mod trojan;
