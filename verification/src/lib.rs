//! A verified core for a small HTTP/1.1 server: byte-level parsing of
//! requests, route dispatch, content-encoding negotiation, and response
//! serialization, all specified over byte sequences.

pub mod bytestr;
pub mod dispatch;
pub mod encoding;
pub mod headers;
pub mod http;
pub mod laws;
pub mod request;
pub mod response;
