//! The opening handshake of a WebSocket server.
//!
//! - `text`: whitespace, names that differ in case only, and the candidate
//!   tokens of a header value.
//! - `negotiation`: choosing among the candidates by the server's ranked
//!   options.
//! - `accept`: the accept token that answers the client's key.
//! - `handshake`: from a parsed request to its outcome, accepted with the
//!   response headers or rejected with a status and a reason.
//!
//! Nothing here reads or writes a connection: the transport parses the
//! request, asks `handshake::routing`, and sends what it is told.

pub mod accept;
pub mod handshake;
pub mod negotiation;
pub mod text;
