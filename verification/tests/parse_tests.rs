//! Tests of the request parser: the request line, headers, body framing,
//! and each parse error.

use http_server::headers::Headers;
use http_server::http::HttpMethod;
use http_server::request::ParseError;
use http_server::request::Request;

#[test]
fn parse_simple_get() {
    let req = Request::from_raw(b"GET / HTTP/1.1\r\nHost: example\r\n\r\n").unwrap();
    assert!(matches!(req.get_method(), HttpMethod::Get));
    assert_eq!(req.get_path(), &b"/".to_vec());
    assert_eq!(req.get_http_version(), &b"HTTP/1.1".to_vec());
    assert_eq!(
        req.get_headers().get(&b"Host".to_vec()),
        Some(&b"example".to_vec())
    );
    // A trailing blank line leaves an empty body, as rejoining no lines does.
    assert_eq!(req.get_body(), &Some(Vec::new()));
}

#[test]
fn parse_without_trailing_blank_line_has_no_body() {
    let req = Request::from_raw(b"GET /nope HTTP/1.1\r\nHost: a").unwrap();
    assert_eq!(req.get_body(), &None);
    assert_eq!(req.get_headers().get(&b"Host".to_vec()), Some(&b"a".to_vec()));
}

#[test]
fn parse_post_with_multiline_body() {
    let req =
        Request::from_raw(b"POST /files/f HTTP/1.1\r\nA: b\r\n\r\nhello\r\nworld").unwrap();
    assert!(matches!(req.get_method(), HttpMethod::Post));
    assert_eq!(req.get_body(), &Some(b"hello\r\nworld".to_vec()));
}

#[test]
fn parse_empty_request_fails() {
    let err = Request::from_raw(b"").unwrap_err();
    assert!(matches!(err, ParseError::EmptyRequest));
}

#[test]
fn parse_short_request_line_fails() {
    let err = Request::from_raw(b"GET /\r\n\r\n").unwrap_err();
    assert!(matches!(err, ParseError::MalformedRequestLine));
}

#[test]
fn parse_long_request_line_fails() {
    let err = Request::from_raw(b"GET / HTTP/1.1 extra\r\n\r\n").unwrap_err();
    assert!(matches!(err, ParseError::MalformedRequestLine));
}

#[test]
fn parse_unknown_method_fails() {
    let err = Request::from_raw(b"PUT / HTTP/1.1\r\n\r\n").unwrap_err();
    match err {
        ParseError::UnknownMethod(tok) => assert_eq!(tok, b"PUT".to_vec()),
        other => panic!("wrong error: {:?}", other),
    }
}

#[test]
fn parse_header_without_separator_fails() {
    let err = Request::from_raw(b"GET / HTTP/1.1\r\nNoSeparator\r\n\r\n").unwrap_err();
    match err {
        ParseError::MalformedHeader(line) => assert_eq!(line, b"NoSeparator".to_vec()),
        other => panic!("wrong error: {:?}", other),
    }
}

#[test]
fn parse_duplicate_header_keeps_last_value() {
    let req = Request::from_raw(b"GET / HTTP/1.1\r\nX: one\r\nX: two\r\n\r\n").unwrap();
    assert_eq!(req.get_headers().get(&b"X".to_vec()), Some(&b"two".to_vec()));
    assert_eq!(req.get_headers().len(), 1);
}

#[test]
fn parse_request_line_with_extra_spaces() {
    let req = Request::from_raw(b"GET  /echo/a   HTTP/1.1\r\n\r\n").unwrap();
    assert_eq!(req.get_path(), &b"/echo/a".to_vec());
    assert_eq!(req.get_http_version(), &b"HTTP/1.1".to_vec());
}

#[test]
fn parse_header_value_with_colon() {
    let req = Request::from_raw(b"GET / HTTP/1.1\r\nA: b: c\r\n\r\n").unwrap();
    assert_eq!(req.get_headers().get(&b"A".to_vec()), Some(&b"b: c".to_vec()));
}

#[test]
fn reparse_of_serialized_request_recovers_it() {
    let raw: &[u8] = b"GET /echo/xyz HTTP/1.1\r\nUser-Agent: curl/8\r\nHost: h\r\n\r\nbody\r\nrest";
    let req = Request::from_raw(raw).unwrap();
    let wire = req.to_bytes();
    let again = Request::from_raw(&wire).unwrap();
    assert!(matches!(again.get_method(), HttpMethod::Get));
    assert_eq!(again.get_path(), req.get_path());
    assert_eq!(again.get_http_version(), req.get_http_version());
    assert_eq!(
        again.get_headers().get(&b"User-Agent".to_vec()),
        Some(&b"curl/8".to_vec())
    );
    assert_eq!(again.get_headers().get(&b"Host".to_vec()), Some(&b"h".to_vec()));
    assert_eq!(again.get_headers().len(), req.get_headers().len());
    assert_eq!(again.get_body(), req.get_body());
}

#[test]
fn reparse_without_body_recovers_absent_body() {
    let raw: &[u8] = b"POST /files/x HTTP/1.1\r\nHost: h";
    let req = Request::from_raw(raw).unwrap();
    assert_eq!(req.get_body(), &None);
    let wire = req.to_bytes();
    let again = Request::from_raw(&wire).unwrap();
    assert_eq!(again.get_body(), &None);
    assert_eq!(again.get_path(), req.get_path());
}

#[test]
fn parse_replaces_invalid_utf8_in_the_buffer() {
    // The buffer is decoded leniently: a byte that is not valid UTF-8 turns
    // into the replacement character before the lines are read.
    let req = Request::from_raw(b"GET /echo/\xff HTTP/1.1\r\n\r\n").unwrap();
    assert_eq!(req.get_path(), &b"/echo/\xef\xbf\xbd".to_vec());
}

#[test]
fn reparse_headers_in_another_order_keeps_the_mapping() {
    let req = Request::from_raw(b"GET / HTTP/1.1\r\nA: 1\r\nB: 2\r\n\r\n").unwrap();
    // Rebuild the same request with its header block rendered the other way
    // round: every name still stores the same value after re-parsing.
    let mut reordered = Headers::new();
    reordered.insert(b"B".to_vec(), b"2".to_vec());
    reordered.insert(b"A".to_vec(), b"1".to_vec());
    let other = Request::new(
        HttpMethod::Get,
        b"/".to_vec(),
        b"HTTP/1.1".to_vec(),
        reordered,
        req.get_body().clone(),
    );
    let again = Request::from_raw(&other.to_bytes()).unwrap();
    assert_eq!(again.get_headers().get(&b"A".to_vec()), Some(&b"1".to_vec()));
    assert_eq!(again.get_headers().get(&b"B".to_vec()), Some(&b"2".to_vec()));
    assert_eq!(again.get_headers().len(), 2);
}

#[test]
fn reparse_keeps_a_header_value_with_a_lone_carriage_return() {
    let req = Request::from_raw(b"GET / HTTP/1.1\r\nX: a\rb\r\n\r\n").unwrap();
    assert_eq!(req.get_headers().get(&b"X".to_vec()), Some(&b"a\rb".to_vec()));
    let again = Request::from_raw(&req.to_bytes()).unwrap();
    assert_eq!(again.get_headers().get(&b"X".to_vec()), Some(&b"a\rb".to_vec()));
}
