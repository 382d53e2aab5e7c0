//! A minimal, fully verified HTTP/1.1 wire core: a request parser working on
//! raw bytes, a case-insensitive header map, immutable request/response
//! values with builder-style construction, routing with content negotiation,
//! and a byte-exact response renderer.
//!
//! All I/O (sockets, files, the external compressor process) lives outside
//! this crate; the functions here are pure transformations on byte vectors.

pub mod bytes;
pub mod headers;
pub mod tokens;
pub mod request;
pub mod response;
pub mod parser;
pub mod router;
