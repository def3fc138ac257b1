//! A minimal HTTP/1.1 request/response core: message model, request parser,
//! response serializer, exact-match router and the per-connection exchange.
//! Everything here is pure: bytes in, bytes out. Sockets live with the caller.

pub mod assoc;
pub mod http;
pub mod router;
pub mod text;
pub mod parser;
pub mod wire;
pub mod connection;
pub mod routes;
pub mod concat;
pub mod laws;
