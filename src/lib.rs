//! A small HTTP/1.1 request/response protocol layer: request decoding,
//! header parsing, response encoding and the per-connection decisions.
pub mod http;
