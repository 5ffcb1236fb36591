//! The decisions of a connection session. A session reads once, decodes
//! the bytes as request text, and either hands the request to the handler
//! or closes without answering; the caller performs the reads and writes.
use vstd::prelude::*;
use vstd::utf8::{decode_utf8, valid_utf8};
use crate::http::request::{decode_spec, HttpRequestError, Request};
use crate::http::text::text_from_utf8;

verus! {

/// Why a session closes without writing a response.
#[derive(Debug, Clone, Copy, PartialEq, Eq, Structural)]
pub enum CloseReason {
    /// The peer sent no bytes.
    NoData,
    /// The bytes are not valid UTF-8 text.
    NotText,
    /// The text is not a request that can be decoded.
    Rejected(HttpRequestError),
}

/// What a session does after its read.
#[derive(Debug)]
pub enum SessionStep {
    /// Hand the request to the handler, then write the encoded response.
    Dispatch(Request),
    /// Close the connection without writing anything.
    Close(CloseReason),
}

/// Decides what to do with the bytes of a session's one read.
pub fn on_read(data: Vec<u8>) -> (r: SessionStep)
    ensures
        data@.len() == 0 ==> r == SessionStep::Close(CloseReason::NoData),
        data@.len() > 0 && !valid_utf8(data@) ==> r == SessionStep::Close(CloseReason::NotText),
        data@.len() > 0 && valid_utf8(data@) ==> match decode_spec(decode_utf8(data@)) {
            Ok(v) => r matches SessionStep::Dispatch(req) && req@ == v,
            Err(e) => r == SessionStep::Close(CloseReason::Rejected(e)),
        },
{
    if data.len() == 0 {
        return SessionStep::Close(CloseReason::NoData);
    }
    let text = match text_from_utf8(data) {
        Some(s) => s,
        None => {
            return SessionStep::Close(CloseReason::NotText);
        },
    };
    match Request::decode(text.as_str()) {
        Ok(req) => SessionStep::Dispatch(req),
        Err(e) => SessionStep::Close(CloseReason::Rejected(e)),
    }
}

} // verus!
