use http_server::http::handler::{handle_request, GREETING};
use http_server::http::header::{CONTENT_TYPE, TEXT_PLAIN};
use http_server::http::session::{on_read, CloseReason, SessionStep};
use http_server::http::text::{char_vec, push_decimal, split_lines, split_words, LineCursor};
use http_server::http::{
    parse_body, parse_headers, Body, Header, HttpRequestError, Message, Method, Request, Response,
    StatusCode, Version,
};

fn decode(text: &str) -> Result<Request, HttpRequestError> {
    Request::decode(text)
}

fn header_pairs(hs: &[Header]) -> Vec<(String, String)> {
    hs.iter().map(|h| (h.name.clone(), h.value.clone())).collect()
}

#[test]
fn decode_get_request() {
    let req = decode("GET /index.html HTTP/1.1\r\nHost: 127.0.0.1:8080\r\nAccept: */*\r\n\r\n").unwrap();
    assert_eq!(req.method, Method::GET);
    assert_eq!(req.url, "/index.html");
    assert_eq!(req.target, "127.0.0.1:8080");
    assert_eq!(req.message.version, Version::OnePointOne);
    assert_eq!(header_pairs(&req.message.headers), vec![("Accept".to_string(), "*/*".to_string())]);
    assert!(req.message.body.is_none());
}

#[test]
fn decode_post_request() {
    let req = decode("POST /submit HTTP/1.1\nHost: example\n\n").unwrap();
    assert_eq!(req.method, Method::POST);
    assert_eq!(req.url, "/submit");
    assert_eq!(req.target, "example");
    assert!(req.message.headers.is_empty());
}

#[test]
fn decode_rejects_head_and_put() {
    assert_eq!(decode("HEAD /").unwrap_err(), HttpRequestError::ParseError);
    assert_eq!(decode("PUT /").unwrap_err(), HttpRequestError::ParseError);
    assert_eq!(decode("HEAD / HTTP/1.1\nHost: x\n\n").unwrap_err(), HttpRequestError::ParseError);
}

#[test]
fn decode_rejects_other_versions() {
    assert_eq!(decode("GET / HTTP/2.0").unwrap_err(), HttpRequestError::UnsupportedHttpVersion);
    assert_eq!(
        decode("POST / HTTP/1.0\nHost: x\n\n").unwrap_err(),
        HttpRequestError::UnsupportedHttpVersion
    );
}

#[test]
fn decode_rejects_short_input() {
    assert_eq!(decode("").unwrap_err(), HttpRequestError::ParseError);
    assert_eq!(decode("GET").unwrap_err(), HttpRequestError::ParseError);
    assert_eq!(decode("GET /").unwrap_err(), HttpRequestError::ParseError);
    assert_eq!(decode("GET / HTTP/1.1").unwrap_err(), HttpRequestError::ParseError);
    assert_eq!(decode("GET / HTTP/1.1\nHost:").unwrap_err(), HttpRequestError::ParseError);
}

#[test]
fn decode_headers_run_to_end_of_input() {
    let req = decode("GET / HTTP/1.1\nHost: h\nA: 1\nB: 2").unwrap();
    assert_eq!(
        header_pairs(&req.message.headers),
        vec![("A".to_string(), "1".to_string()), ("B".to_string(), "2".to_string())]
    );
}

#[test]
fn headers_stop_at_first_non_header_line() {
    let text = "Content-Type: text/plain\nX-One: 1\nX-Two: 2\nnot a header\nLater: ignored\n";
    let mut cursor = LineCursor::new(text);
    let headers = parse_headers(&mut cursor);
    assert_eq!(headers.len(), 3);
    assert_eq!(
        header_pairs(&headers),
        vec![
            ("Content-Type".to_string(), "text/plain".to_string()),
            ("X-One".to_string(), "1".to_string()),
            ("X-Two".to_string(), "2".to_string()),
        ]
    );
    assert_eq!(cursor.peek().map(|s| s.as_str()), Some("not a header"));
    let lines: Vec<String> = headers.iter().map(|h| h.to_text()).collect();
    assert_eq!(lines.join("\n"), "Content-Type: text/plain\nX-One: 1\nX-Two: 2");
    let response = Response {
        status_code: StatusCode::OK,
        message: Message::new(Version::OnePointOne, headers, None),
    };
    assert_eq!(
        response.serialize(),
        b"HTTP/1.1 200 OK\nContent-Type: text/plain\nX-One: 1\nX-Two: 2\n".to_vec()
    );
}

#[test]
fn header_line_needs_exactly_one_separator() {
    let h = Header::parse_line("Host: example.com").ok().unwrap();
    assert_eq!((h.name.as_str(), h.value.as_str()), ("Host", "example.com"));
    let h = Header::parse_line(": ").ok().unwrap();
    assert_eq!((h.name.as_str(), h.value.as_str()), ("", ""));
    assert!(Header::parse_line("Time:12:00").is_err());
    assert!(Header::parse_line("").is_err());
    assert!(Header::parse_line("A: b: c").is_err());
    assert!(Header::parse_line("no separator").is_err());
}

#[test]
fn header_new_and_text() {
    let h = Header::new(CONTENT_TYPE, TEXT_PLAIN);
    assert_eq!(h.to_text(), "Content-Type: text/plain");
}

#[test]
fn header_stop_line_is_left_for_the_body() {
    let mut cursor = LineCursor::new("A: 1\n\nbody");
    let headers = parse_headers(&mut cursor);
    assert_eq!(headers.len(), 1);
    assert!(parse_body(&mut cursor).is_none());
    assert_eq!(cursor.next().map(|s| s.as_str()), Some(""));
    assert_eq!(cursor.next().map(|s| s.as_str()), Some("body"));
    assert!(cursor.next().is_none());
}

#[test]
fn serialize_empty_response() {
    let response = Response {
        status_code: StatusCode::OK,
        message: Message::new(Version::OnePointOne, Vec::new(), None),
    };
    assert_eq!(response.serialize(), b"HTTP/1.1 200 OK\n\n".to_vec());
}

#[test]
fn serialize_header_and_body() {
    let response = Response {
        status_code: StatusCode::OK,
        message: Message::new(
            Version::OnePointOne,
            vec![Header::new("Content-Type", "text/plain")],
            Some(Body { contents: b"hi".to_vec() }),
        ),
    };
    assert_eq!(
        response.serialize(),
        b"HTTP/1.1 200 OK\nContent-Type: text/plain\nhi".to_vec()
    );
}

#[test]
fn serialize_keeps_header_order_and_duplicates() {
    let response = Response {
        status_code: StatusCode::OK,
        message: Message::new(
            Version::OnePointOne,
            vec![Header::new("B", "2"), Header::new("A", "1"), Header::new("B", "3")],
            None,
        ),
    };
    assert_eq!(response.serialize(), b"HTTP/1.1 200 OK\nB: 2\nA: 1\nB: 3\n".to_vec());
}

#[test]
fn body_text_forms() {
    assert_eq!(Body { contents: "hé".as_bytes().to_vec() }.to_text(), "hé");
    assert_eq!(Body { contents: vec![255, 0, 10] }.to_text(), "Non-UTF8 bytes: [255, 0, 10]");
    assert_eq!(Body { contents: Vec::new() }.to_text(), "");
}

#[test]
fn serialize_non_text_body() {
    let response = Response {
        status_code: StatusCode::OK,
        message: Message::new(Version::OnePointOne, Vec::new(), Some(Body { contents: vec![200] })),
    };
    assert_eq!(response.serialize(), b"HTTP/1.1 200 OK\n\nNon-UTF8 bytes: [200]".to_vec());
}

#[test]
fn status_and_version_text() {
    assert_eq!(StatusCode::OK.code(), 200);
    assert_eq!(StatusCode::OK.reason(), "OK");
    assert_eq!(Version::OnePointOne.as_str(), "1.1");
}

#[test]
fn session_closes_on_no_data() {
    assert!(matches!(on_read(Vec::new()), SessionStep::Close(CloseReason::NoData)));
}

#[test]
fn session_closes_on_non_text() {
    assert!(matches!(on_read(vec![0xff, 0xfe, 0x41]), SessionStep::Close(CloseReason::NotText)));
    assert!(matches!(on_read(vec![0xc0, 0x80]), SessionStep::Close(CloseReason::NotText)));
}

#[test]
fn session_closes_on_rejected_request() {
    assert!(matches!(
        on_read(b"PUT / HTTP/1.1\nHost: x\n\n".to_vec()),
        SessionStep::Close(CloseReason::Rejected(HttpRequestError::ParseError))
    ));
    assert!(matches!(
        on_read(b"GET / HTTP/2.0\nHost: x\n\n".to_vec()),
        SessionStep::Close(CloseReason::Rejected(HttpRequestError::UnsupportedHttpVersion))
    ));
}

#[test]
fn session_dispatches_and_handler_answers() {
    let step = on_read(b"GET /hello HTTP/1.1\r\nHost: localhost\r\nUser-Agent: curl\r\n\r\n".to_vec());
    let request = match step {
        SessionStep::Dispatch(r) => r,
        other => panic!("unexpected step {:?}", other),
    };
    assert_eq!(request.url, "/hello");
    assert_eq!(header_pairs(&request.message.headers), vec![("User-Agent".to_string(), "curl".to_string())]);
    let response = handle_request(request);
    assert_eq!(response.serialize(), b"HTTP/1.1 200 OK\n\nhello from Rust".to_vec());
    assert_eq!(GREETING, "hello from Rust");
}

#[test]
fn lines_follow_str_lines() {
    for text in ["", "a", "a\n", "a\r\nb", "\n\n", "foo\r\nbar\n\nbaz\r", "x\ry\n", "é\nü"] {
        let expected: Vec<String> = text.lines().map(|l| l.to_string()).collect();
        assert_eq!(split_lines(text), expected, "{:?}", text);
    }
}

#[test]
fn words_follow_split_whitespace() {
    for text in ["", "  ", "GET / HTTP/1.1", " a\tb\u{3000}c\u{85}d ", "x\u{a0}y", "one"] {
        let expected: Vec<String> = text.split_whitespace().map(|w| w.to_string()).collect();
        assert_eq!(split_words(text), expected, "{:?}", text);
    }
}

#[test]
fn chars_and_decimals() {
    assert_eq!(char_vec("aé"), vec!['a', 'é']);
    let mut s = String::from("n=");
    push_decimal(&mut s, 0);
    push_decimal(&mut s, 1);
    push_decimal(&mut s, 200);
    push_decimal(&mut s, u64::MAX);
    assert_eq!(s, format!("n=01200{}", u64::MAX));
}
