//! The protocol layer: message model, header codec, request decoder,
//! response encoder and connection session.
pub mod handler;
pub mod header;
pub mod message;
pub mod request;
pub mod response;
pub mod session;
pub mod text;

pub use header::{parse_headers, Header, HeaderParseError};
pub use message::{parse_body, Body, BodyParseError, Message, Method, Version};
pub use request::{HttpRequestError, Request};
pub use response::{Response, StatusCode};
