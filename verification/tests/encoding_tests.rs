//! Tests of content-encoding negotiation: which `Accept-Encoding` values
//! select gzip, what the compressed response carries, and that the body
//! really decompresses back to the original.

use std::io::Read;

use http_server::dispatch::dispatch;
use http_server::dispatch::Action;
use http_server::encoding::accepts_gzip;
use http_server::encoding::finish_request;
use http_server::http::Status;
use http_server::request::Request;

fn root() -> Vec<u8> {
    b"/tmp/files/".to_vec()
}

fn req_with_accept(value: &[u8]) -> Request {
    let mut raw = b"GET /echo/abc HTTP/1.1\r\nAccept-Encoding: ".to_vec();
    raw.extend_from_slice(value);
    raw.extend_from_slice(b"\r\n\r\n");
    Request::from_raw(&raw).unwrap()
}

#[test]
fn accept_encoding_selects_gzip() {
    assert!(accepts_gzip(&req_with_accept(b"gzip")));
    assert!(accepts_gzip(&req_with_accept(b"deflate, gzip, br")));
    assert!(accepts_gzip(&req_with_accept(b"  gzip  ")));
    assert!(!accepts_gzip(&req_with_accept(b"deflate")));
    assert!(!accepts_gzip(&req_with_accept(b"gzipped")));
    assert!(!accepts_gzip(&req_with_accept(b"")));
    let plain = Request::from_raw(b"GET /echo/abc HTTP/1.1\r\n\r\n").unwrap();
    assert!(!accepts_gzip(&plain));
}

#[test]
fn gzip_response_decompresses_to_the_original_body() {
    let req = req_with_accept(b"gzip");
    let resp = match dispatch(&req, &root()) {
        Action::Reply(status, content) => finish_request(&req, status, content),
        Action::Fs(_) => panic!("echo route must not touch the filesystem"),
    };
    assert!(matches!(resp.status, Status::Okay));
    let content = resp.content.as_ref().unwrap();
    assert_eq!(content.encoding.as_ref().unwrap(), &b"gzip".to_vec());
    assert_eq!(
        resp.headers.get(&b"Content-Encoding".to_vec()),
        Some(&b"gzip".to_vec())
    );
    // Content-Length measures the compressed body, not the original text.
    let reported = resp.headers.get(&b"Content-Length".to_vec()).unwrap().clone();
    assert_eq!(reported, content.body.len().to_string().into_bytes());
    assert_ne!(content.body, b"abc".to_vec());
    let mut decoder = flate2::read::GzDecoder::new(content.body.as_slice());
    let mut plain = Vec::new();
    decoder.read_to_end(&mut plain).unwrap();
    assert_eq!(plain, b"abc".to_vec());
}

#[test]
fn no_gzip_keeps_the_body_and_omits_content_encoding() {
    for req in [req_with_accept(b"deflate"), Request::from_raw(b"GET /echo/abc HTTP/1.1\r\n\r\n").unwrap()] {
        let resp = match dispatch(&req, &root()) {
            Action::Reply(status, content) => finish_request(&req, status, content),
            Action::Fs(_) => panic!("echo route must not touch the filesystem"),
        };
        assert!(matches!(resp.status, Status::Okay));
        let content = resp.content.as_ref().unwrap();
        assert_eq!(content.body, b"abc".to_vec());
        assert!(content.encoding.is_none());
        assert_eq!(resp.headers.get(&b"Content-Encoding".to_vec()), None);
        assert_eq!(
            resp.headers.get(&b"Content-Length".to_vec()),
            Some(&b"3".to_vec())
        );
    }
}

#[test]
fn gzip_with_no_content_stays_empty() {
    let raw = b"GET / HTTP/1.1\r\nAccept-Encoding: gzip\r\n\r\n";
    let req = Request::from_raw(raw).unwrap();
    let resp = match dispatch(&req, &root()) {
        Action::Reply(status, content) => finish_request(&req, status, content),
        Action::Fs(_) => panic!("root route must not touch the filesystem"),
    };
    assert!(matches!(resp.status, Status::Okay));
    assert!(resp.content.is_none());
    assert_eq!(resp.to_bytes(), b"HTTP/1.1 200 OK\r\n\r\n\r\n".to_vec());
}
