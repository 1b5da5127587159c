//! Tests of the route dispatcher and of the folding of filesystem outcomes
//! into replies, driven end to end through parse, dispatch, negotiation and
//! serialization.

use http_server::dispatch::dispatch;
use http_server::dispatch::finish_read;
use http_server::dispatch::finish_write;
use http_server::dispatch::Action;
use http_server::dispatch::FsOp;
use http_server::encoding::finish_request;
use http_server::http::Status;
use http_server::request::Request;

fn root() -> Vec<u8> {
    b"/tmp/files/".to_vec()
}

#[test]
fn root_route_replies_200_with_nothing() {
    let req = Request::from_raw(b"GET / HTTP/1.1\r\n\r\n").unwrap();
    match dispatch(&req, &root()) {
        Action::Reply(status, content) => {
            assert!(matches!(status, Status::Okay));
            assert!(content.is_none());
            let resp = finish_request(&req, status, content);
            assert_eq!(resp.to_bytes(), b"HTTP/1.1 200 OK\r\n\r\n\r\n".to_vec());
        }
        Action::Fs(_) => panic!("root route must not touch the filesystem"),
    }
}

#[test]
fn echo_route_replies_with_the_suffix() {
    let req = Request::from_raw(b"GET /echo/abc HTTP/1.1\r\n\r\n").unwrap();
    match dispatch(&req, &root()) {
        Action::Reply(status, content) => {
            let resp = finish_request(&req, status, content);
            assert_eq!(
                resp.to_bytes(),
                b"HTTP/1.1 200 OK\r\nContent-Type: text/plain\r\nContent-Length: 3\r\n\r\nabc"
                    .to_vec()
            );
        }
        Action::Fs(_) => panic!("echo route must not touch the filesystem"),
    }
}

#[test]
fn user_agent_route_echoes_the_header() {
    let req =
        Request::from_raw(b"GET /user-agent HTTP/1.1\r\nUser-Agent: xyz\r\n\r\n").unwrap();
    match dispatch(&req, &root()) {
        Action::Reply(status, content) => {
            assert!(matches!(status, Status::Okay));
            let c = content.as_ref().unwrap();
            assert_eq!(c.body, b"xyz".to_vec());
            let resp = finish_request(&req, status, content);
            assert_eq!(
                resp.to_bytes(),
                b"HTTP/1.1 200 OK\r\nContent-Type: text/plain\r\nContent-Length: 3\r\n\r\nxyz"
                    .to_vec()
            );
        }
        Action::Fs(_) => panic!("user-agent route must not touch the filesystem"),
    }
}

#[test]
fn user_agent_route_without_header_is_500() {
    let req = Request::from_raw(b"GET /user-agent HTTP/1.1\r\n\r\n").unwrap();
    match dispatch(&req, &root()) {
        Action::Reply(status, content) => {
            assert!(matches!(status, Status::InternalServerError));
            assert!(content.is_none());
        }
        Action::Fs(_) => panic!("user-agent route must not touch the filesystem"),
    }
}

#[test]
fn unknown_path_is_404_for_any_method() {
    for raw in [
        b"GET /nope HTTP/1.1\r\n\r\n".as_slice(),
        b"POST /nope HTTP/1.1\r\n\r\n".as_slice(),
    ] {
        let req = Request::from_raw(raw).unwrap();
        match dispatch(&req, &root()) {
            Action::Reply(status, content) => {
                assert!(matches!(status, Status::NotFound));
                assert!(content.is_none());
                let resp = finish_request(&req, status, content);
                assert_eq!(resp.to_bytes(), b"HTTP/1.1 404 Not Found\r\n\r\n\r\n".to_vec());
            }
            Action::Fs(_) => panic!("unknown path must not touch the filesystem"),
        }
    }
}

#[test]
fn files_get_asks_for_a_read_under_the_root() {
    let req = Request::from_raw(b"GET /files/notes.txt HTTP/1.1\r\n\r\n").unwrap();
    match dispatch(&req, &root()) {
        Action::Fs(FsOp::ReadFile(path)) => {
            assert_eq!(path, b"/tmp/files/notes.txt".to_vec());
        }
        _ => panic!("files GET must ask for a read"),
    }
}

#[test]
fn files_read_success_is_200_with_the_bytes() {
    let (status, content) = finish_read(Some(b"data".to_vec()));
    assert!(matches!(status, Status::Okay));
    let c = content.as_ref().unwrap();
    assert_eq!(c.body, b"data".to_vec());
    assert!(c.encoding.is_none());
}

#[test]
fn files_read_failure_is_404_with_no_body() {
    let req = Request::from_raw(b"GET /files/missing HTTP/1.1\r\n\r\n").unwrap();
    match dispatch(&req, &root()) {
        Action::Fs(FsOp::ReadFile(_)) => {
            let (status, content) = finish_read(None);
            assert!(matches!(status, Status::NotFound));
            assert!(content.is_none());
            let resp = finish_request(&req, status, content);
            assert_eq!(resp.to_bytes(), b"HTTP/1.1 404 Not Found\r\n\r\n\r\n".to_vec());
        }
        _ => panic!("files GET must ask for a read"),
    }
}

#[test]
fn files_post_then_get_round_trip() {
    let post =
        Request::from_raw(b"POST /files/f HTTP/1.1\r\nContent-Type: text/plain\r\n\r\nB-bytes")
            .unwrap();
    let get = Request::from_raw(b"GET /files/f HTTP/1.1\r\n\r\n").unwrap();
    let write_path = match dispatch(&post, &root()) {
        Action::Fs(FsOp::WriteFile(path, body)) => {
            assert_eq!(body, b"B-bytes".to_vec());
            path
        }
        _ => panic!("files POST must ask for a write"),
    };
    match dispatch(&get, &root()) {
        Action::Fs(FsOp::ReadFile(path)) => {
            // The read targets the very path the write stored.
            assert_eq!(path, write_path);
            // A faithful store hands the written bytes back.
            let (status, content) = finish_read(Some(b"B-bytes".to_vec()));
            assert!(matches!(status, Status::Okay));
            let resp = finish_request(&get, status, content);
            assert_eq!(
                resp.to_bytes(),
                b"HTTP/1.1 200 OK\r\nContent-Type: application/octet-stream\r\nContent-Length: 7\r\n\r\nB-bytes"
                    .to_vec()
            );
        }
        _ => panic!("files GET must ask for a read"),
    }
}

#[test]
fn files_post_without_body_writes_zero_bytes() {
    let req = Request::from_raw(b"POST /files/empty HTTP/1.1\r\nHost: h").unwrap();
    assert_eq!(req.get_body(), &None);
    match dispatch(&req, &root()) {
        Action::Fs(FsOp::WriteFile(path, body)) => {
            assert_eq!(path, b"/tmp/files/empty".to_vec());
            assert_eq!(body, Vec::<u8>::new());
        }
        _ => panic!("files POST must ask for a write"),
    }
}

#[test]
fn files_write_outcomes() {
    let (ok_status, ok_content) = finish_write(true);
    assert!(matches!(ok_status, Status::Created));
    assert!(ok_content.is_none());
    let (err_status, err_content) = finish_write(false);
    assert!(matches!(err_status, Status::InternalServerError));
    assert!(err_content.is_none());
}
