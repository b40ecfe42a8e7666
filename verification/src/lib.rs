//! A small, verified HTTP/1.1 server core: request parsing, routing,
//! response building, and the per-connection protocol state machine.
//!
//! I/O (sockets, files, timeouts) lives outside this crate; the functions
//! here are pure decisions over byte buffers and plain values.

pub mod conn;
pub mod gz;
pub mod request;
pub mod routes;
pub mod response;
pub mod wire;
