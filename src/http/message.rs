//! The message model shared by requests and responses.
use vstd::prelude::*;
use vstd::utf8::{decode_utf8, valid_utf8};
use crate::http::header::{headers_view, Header};
use crate::http::text::{decimal, push_decimal, text_from_utf8, LineCursor};

verus! {

/// A request method. Only `GET` and `POST` are decoded; `HEAD` is known
/// but has no decoding path.
#[derive(Debug, Clone, Copy, PartialEq, Eq, Structural)]
pub enum Method {
    HEAD,
    GET,
    POST,
}

/// A protocol version: `1.1` is the one this library speaks.
#[derive(Debug, Clone, Copy, PartialEq, Eq, Structural)]
pub enum Version {
    OnePointOne,
}

/// The text of a version, as it follows `HTTP/`.
pub open spec fn version_text(v: Version) -> Seq<char> {
    match v {
        Version::OnePointOne => "1.1"@,
    }
}

impl Version {
    /// The text of the version, as it follows `HTTP/`.
    pub fn as_str(&self) -> (r: &'static str)
        ensures
            r@ == version_text(*self),
    {
        match self {
            Version::OnePointOne => "1.1",
        }
    }
}

/// An opaque body of bytes.
#[derive(Debug)]
pub struct Body {
    pub contents: Vec<u8>,
}

/// A body that could not be read.
#[derive(Debug)]
pub struct BodyParseError;

/// `b` written as a list of decimal numbers separated by `", "`.
pub open spec fn byte_items(b: Seq<u8>) -> Seq<char>
    decreases b.len(),
{
    if b.len() == 0 {
        seq![]
    } else if b.len() == 1 {
        decimal(b[0] as nat)
    } else {
        byte_items(b.drop_last()) + ", "@ + decimal(b.last() as nat)
    }
}

/// The display form of a body: its text where the bytes are valid UTF-8,
/// else the bytes listed as numbers.
pub open spec fn body_text(b: Seq<u8>) -> Seq<char> {
    if valid_utf8(b) {
        decode_utf8(b)
    } else {
        "Non-UTF8 bytes: ["@ + byte_items(b) + "]"@
    }
}

impl Body {
    /// The display form of the body.
    pub fn to_text(&self) -> (r: String)
        ensures
            r@ == body_text(self.contents@),
    {
        match text_from_utf8(self.contents.clone()) {
            Some(s) => s,
            None => {
                let b = &self.contents;
                let mut out = String::from_str("Non-UTF8 bytes: [");
                let mut i: usize = 0;
                while i < b.len()
                    invariant
                        i <= b.len(),
                        out@ == "Non-UTF8 bytes: ["@ + byte_items(b@.take(i as int)),
                    decreases b.len() - i,
                {
                    assert(b@.take(i + 1).drop_last() =~= b@.take(i as int));
                    if i > 0 {
                        out.append(", ");
                    }
                    push_decimal(&mut out, b[i] as u64);
                    i = i + 1;
                    assert(out@ =~= "Non-UTF8 bytes: ["@ + byte_items(b@.take(i as int)));
                }
                out.append("]");
                assert(b@.take(i as int) =~= b@);
                out
            },
        }
    }
}

/// What a message holds, as plain values.
pub struct MessageView {
    pub version: Version,
    pub headers: Seq<(Seq<char>, Seq<char>)>,
    pub body: Option<Seq<u8>>,
}

/// Version, ordered headers and optional body: the part that requests and
/// responses share.
#[derive(Debug)]
pub struct Message {
    pub version: Version,
    pub headers: Vec<Header>,
    pub body: Option<Body>,
}

impl View for Message {
    type V = MessageView;

    open spec fn view(&self) -> MessageView {
        MessageView {
            version: self.version,
            headers: headers_view(self.headers@),
            body: match self.body {
                Some(b) => Some(b.contents@),
                None => None,
            },
        }
    }
}

impl Message {
    /// A message of the given parts, as they are.
    pub fn new(version: Version, headers: Vec<Header>, body: Option<Body>) -> (r: Message)
        ensures
            r.version == version,
            r.headers == headers,
            r.body == body,
    {
        Message { version, headers, body }
    }
}

/// Reads a body at the cursor. Bodies are not framed by this protocol, so
/// there is never one to read and the cursor is left as it is.
pub fn parse_body(lines: &mut LineCursor) -> (r: Option<Body>)
    ensures
        r is None,
        final(lines)@ == old(lines)@,
{
    None
}

} // verus!
