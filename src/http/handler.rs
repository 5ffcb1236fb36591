//! The default handler: the business logic that maps a request to a
//! response.
use vstd::prelude::*;
use vstd::utf8::encode_utf8;
use crate::http::message::{Body, Message};
use crate::http::request::Request;
use crate::http::response::{Response, StatusCode};

verus! {

/// The body every request is answered with.
pub const GREETING: &'static str = "hello from Rust";

/// Answers any request with `OK` and the greeting as body, in the
/// request's version and with no headers.
pub fn handle_request(request: Request) -> (r: Response)
    ensures
        r.status_code == StatusCode::OK,
        r.message@.version == request.message@.version,
        r.message@.headers.len() == 0,
        r.message@.body == Some(encode_utf8(GREETING@)),
{
    let contents = GREETING.as_bytes_vec();
    let message = Message::new(request.message.version, Vec::new(), Some(Body { contents }));
    Response { message, status_code: StatusCode::OK }
}

} // verus!
