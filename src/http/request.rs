//! The request decoder: request text to a structured request.
use vstd::prelude::*;
use crate::http::header::{header_run, parse_headers};
use crate::http::message::{parse_body, Message, MessageView, Method, Version};
use crate::http::text::{
    is_space, lines_from, lines_of, split_words, strip_cr, strings_view, words_from, words_of,
    LineCursor,
};

verus! {

/// A decoded request.
#[derive(Debug)]
pub struct Request {
    pub method: Method,
    pub target: String,
    pub message: Message,
    pub url: String,
}

/// Why request text could not be decoded.
#[derive(Debug, Clone, Copy, PartialEq, Eq, Structural)]
pub enum HttpRequestError {
    /// The method is not one that is decoded, or the text is too short to
    /// hold a request.
    ParseError,
    /// The version token is not `HTTP/1.1`.
    UnsupportedHttpVersion,
}

/// What a request holds, as plain values.
pub struct RequestView {
    pub method: Method,
    pub target: Seq<char>,
    pub url: Seq<char>,
    pub message: MessageView,
}

impl View for Request {
    type V = RequestView;

    open spec fn view(&self) -> RequestView {
        RequestView {
            method: self.method,
            target: self.target@,
            url: self.url@,
            message: self.message@,
        }
    }
}

/// The method a method token names, where it is one that is decoded.
pub open spec fn method_of(token: Seq<char>) -> Option<Method> {
    if token == "GET"@ {
        Some(Method::GET)
    } else if token == "POST"@ {
        Some(Method::POST)
    } else {
        None
    }
}

/// The words of the request line, the first line of the text.
pub open spec fn request_line_words(input: Seq<char>) -> Seq<Seq<char>> {
    let lines = lines_of(input);
    if lines.len() == 0 {
        seq![]
    } else {
        words_of(lines[0])
    }
}

/// The outcome of decoding request text.
///
/// The request line's first word gives the method, its second the url and
/// its third the version. The target is the second word of the second line,
/// the headers are the header lines that follow it, and there is no body.
/// A missing line or word is a `ParseError`; the method is checked before
/// anything else and the version before the second line.
pub open spec fn decode_spec(input: Seq<char>) -> Result<RequestView, HttpRequestError> {
    let lines = lines_of(input);
    let first = request_line_words(input);
    if first.len() == 0 || method_of(first[0]) is None {
        Err(HttpRequestError::ParseError)
    } else if first.len() < 3 {
        Err(HttpRequestError::ParseError)
    } else if first[2] != "HTTP/1.1"@ {
        Err(HttpRequestError::UnsupportedHttpVersion)
    } else if lines.len() < 2 || words_of(lines[1]).len() < 2 {
        Err(HttpRequestError::ParseError)
    } else {
        Ok(
            RequestView {
                method: method_of(first[0])->0,
                target: words_of(lines[1])[1],
                url: first[1],
                message: MessageView {
                    version: Version::OnePointOne,
                    headers: header_run(lines.skip(2)),
                    body: None,
                },
            },
        )
    }
}

impl Request {
    /// Decodes request text.
    pub fn decode(input: &str) -> (r: Result<Request, HttpRequestError>)
        ensures
            match r {
                Ok(req) => decode_spec(input@) == Ok::<RequestView, HttpRequestError>(req@),
                Err(e) => decode_spec(input@) == Err::<RequestView, HttpRequestError>(e),
            },
    {
        let mut lines = LineCursor::new(input);
        let ghost all = lines@;
        let first = match lines.next() {
            Some(line) => split_words(line.as_str()),
            None => {
                return Err(HttpRequestError::ParseError);
            },
        };
        assert(strings_view(first@) == request_line_words(input@));
        assert(strings_view(first@).len() == first@.len());
        if first.len() == 0 {
            return Err(HttpRequestError::ParseError);
        }
        assert(first@[0]@ == strings_view(first@)[0]);
        let method = if first[0] == String::from_str("GET") {
            Method::GET
        } else if first[0] == String::from_str("POST") {
            Method::POST
        } else {
            return Err(HttpRequestError::ParseError);
        };
        if first.len() < 3 {
            return Err(HttpRequestError::ParseError);
        }
        assert(first@[1]@ == strings_view(first@)[1]);
        assert(first@[2]@ == strings_view(first@)[2]);
        let url = first[1].clone();
        if first[2] != String::from_str("HTTP/1.1") {
            return Err(HttpRequestError::UnsupportedHttpVersion);
        }
        let version = Version::OnePointOne;
        let second = match lines.next() {
            Some(line) => split_words(line.as_str()),
            None => {
                return Err(HttpRequestError::ParseError);
            },
        };
        assert(strings_view(second@) == words_of(all[1]));
        assert(strings_view(second@).len() == second@.len());
        if second.len() < 2 {
            return Err(HttpRequestError::ParseError);
        }
        assert(second@[1]@ == strings_view(second@)[1]);
        let target = second[1].clone();
        assert(lines@ =~= all.skip(2));
        let headers = parse_headers(&mut lines);
        let body = parse_body(&mut lines);
        let message = Message::new(version, headers, body);
        Ok(Request { method, target, message, url })
    }
}

/// Reading a stretch without line breaks only extends the current line.
proof fn lemma_lines_from_no_break(a: Seq<char>, s: Seq<char>, cur: Seq<char>)
    requires
        forall|i: int| 0 <= i < a.len() ==> a[i] != '\n',
    ensures
        lines_from(a + s, cur) == lines_from(s, cur + a),
    decreases a.len(),
{
    if a.len() > 0 {
        assert((a + s).drop_first() =~= a.drop_first() + s);
        assert(cur.push(a[0]) + a.drop_first() =~= cur + a);
        lemma_lines_from_no_break(a.drop_first(), s, cur.push(a[0]));
    } else {
        assert(a + s =~= s);
        assert(cur + a =~= cur);
    }
}

/// Reading a stretch without whitespace only extends the current word.
proof fn lemma_words_from_no_space(a: Seq<char>, s: Seq<char>, cur: Seq<char>)
    requires
        forall|i: int| 0 <= i < a.len() ==> !is_space(a[i]),
    ensures
        words_from(a + s, cur) == words_from(s, cur + a),
    decreases a.len(),
{
    if a.len() > 0 {
        assert((a + s).drop_first() =~= a.drop_first() + s);
        assert(cur.push(a[0]) + a.drop_first() =~= cur + a);
        lemma_words_from_no_space(a.drop_first(), s, cur.push(a[0]));
    } else {
        assert(a + s =~= s);
        assert(cur + a =~= cur);
    }
}

/// The words of `w1 w2 w3`, each word free of whitespace and not empty.
proof fn lemma_three_words(w1: Seq<char>, w2: Seq<char>, w3: Seq<char>)
    requires
        w1.len() > 0 && w2.len() > 0 && w3.len() > 0,
        forall|i: int| 0 <= i < w1.len() ==> !is_space(w1[i]),
        forall|i: int| 0 <= i < w2.len() ==> !is_space(w2[i]),
        forall|i: int| 0 <= i < w3.len() ==> !is_space(w3[i]),
    ensures
        words_of(w1 + seq![' '] + w2 + seq![' '] + w3) == seq![w1, w2, w3],
{
    let e = Seq::<char>::empty();
    let tail2 = seq![' '] + w3;
    let tail1 = seq![' '] + w2 + tail2;
    assert(w1 + seq![' '] + w2 + seq![' '] + w3 =~= w1 + tail1);
    lemma_words_from_no_space(w1, tail1, e);
    assert(e + w1 =~= w1);
    assert(tail1.drop_first() =~= w2 + tail2);
    lemma_words_from_no_space(w2, tail2, e);
    assert(e + w2 =~= w2);
    assert(tail2.drop_first() =~= w3);
    assert(w3 =~= w3 + e);
    lemma_words_from_no_space(w3, e, e);
    assert(e + w3 =~= w3);
    assert(words_from(w3, e) == seq![w3]);
    assert(words_from(tail2, w2) =~= seq![w2, w3]);
    assert(words_from(tail1, w1) =~= seq![w1, w2, w3]);
}

/// A request line of a decoded method, a path and `HTTP/1.1`, followed by a
/// line of at least two words, decodes; the request has that method and
/// that path as its url.
pub proof fn lemma_request_line_decodes(method: Seq<char>, path: Seq<char>, rest: Seq<char>)
    requires
        method == "GET"@ || method == "POST"@,
        path.len() > 0,
        forall|i: int| 0 <= i < path.len() ==> !is_space(path[i]),
        lines_of(rest).len() > 0,
        words_of(lines_of(rest)[0]).len() >= 2,
    ensures
        decode_spec(method + seq![' '] + path + seq![' '] + "HTTP/1.1"@ + seq!['\n'] + rest) matches Ok(req)
            && req.method == method_of(method)->0 && req.url == path,
{
    reveal_strlit("GET");
    reveal_strlit("POST");
    reveal_strlit("HTTP/1.1");
    let version = "HTTP/1.1"@;
    let line = method + seq![' '] + path + seq![' '] + version;
    let input = method + seq![' '] + path + seq![' '] + version + seq!['\n'] + rest;
    assert(input =~= line + (seq!['\n'] + rest));
    assert forall|i: int| 0 <= i < line.len() implies line[i] != '\n' by {
        if i >= method.len() + 1 && i < method.len() + 1 + path.len() {
            assert(line[i] == path[i - method.len() - 1]);
        }
    }
    let e = Seq::<char>::empty();
    lemma_lines_from_no_break(line, seq!['\n'] + rest, e);
    assert(e + line =~= line);
    assert((seq!['\n'] + rest).drop_first() =~= rest);
    assert(line.last() == '1');
    assert(strip_cr(line) == line);
    assert(lines_of(input) =~= seq![line] + lines_of(rest));
    lemma_three_words(method, path, version);
    assert(request_line_words(input) == seq![method, path, version]);
    assert(lines_of(input)[1] == lines_of(rest)[0]);
}

/// Text whose request line begins with a word that names no decoded method
/// is rejected with `ParseError`, whatever follows.
pub proof fn lemma_unknown_method_rejected(input: Seq<char>)
    requires
        request_line_words(input).len() > 0,
        request_line_words(input)[0] != "GET"@,
        request_line_words(input)[0] != "POST"@,
    ensures
        decode_spec(input) == Err::<RequestView, HttpRequestError>(HttpRequestError::ParseError),
{
}

/// Text whose request line has a decoded method and a third word other than
/// `HTTP/1.1` is rejected with `UnsupportedHttpVersion`, whatever follows.
pub proof fn lemma_unsupported_version_rejected(input: Seq<char>)
    requires
        request_line_words(input).len() >= 3,
        request_line_words(input)[0] == "GET"@ || request_line_words(input)[0] == "POST"@,
        request_line_words(input)[2] != "HTTP/1.1"@,
    ensures
        decode_spec(input) == Err::<RequestView, HttpRequestError>(
            HttpRequestError::UnsupportedHttpVersion,
        ),
{
}

} // verus!
