//! Tests of the typed model: methods, statuses, content types, header
//! mappings and the serializers' fixed spellings.

use http_server::bytestr::dec_bytes;
use http_server::headers::Headers;
use http_server::http::ApplicationContentType;
use http_server::http::ContentType;
use http_server::http::HttpMethod;
use http_server::http::Status;
use http_server::http::TextContentType;
use http_server::request::Request;
use http_server::response::derive_headers;
use http_server::response::Content;
use http_server::response::Response;

#[test]
fn method_spellings() {
    assert_eq!(HttpMethod::Get.to_string(), "GET");
    assert_eq!(HttpMethod::Post.to_string(), "POST");
    assert_eq!(HttpMethod::Get.token_bytes(), b"GET".to_vec());
    assert!(matches!(
        HttpMethod::from_string(&b"GET".to_vec()),
        Some(HttpMethod::Get)
    ));
    assert!(matches!(
        HttpMethod::from_string(&b"POST".to_vec()),
        Some(HttpMethod::Post)
    ));
    assert!(HttpMethod::from_string(&b"PATCH".to_vec()).is_none());
    assert!(HttpMethod::from_string(&b"get".to_vec()).is_none());
}

#[test]
fn status_codes_and_phrases() {
    assert_eq!(Status::Okay.get_status_code(), 200);
    assert_eq!(Status::Created.get_status_code(), 201);
    assert_eq!(Status::NotFound.get_status_code(), 404);
    assert_eq!(Status::InternalServerError.get_status_code(), 500);
    assert_eq!(Status::Okay.get_text_code(), "OK");
    assert_eq!(Status::Created.get_text_code(), "Created");
    assert_eq!(Status::NotFound.get_text_code(), "Not Found");
    assert_eq!(Status::InternalServerError.get_text_code(), "Internal Server Error");
    assert_eq!(Status::Okay.to_string(), "200 OK");
    assert_eq!(Status::Created.to_string(), "201 Created");
    assert_eq!(Status::NotFound.to_string(), "404 Not Found");
    assert_eq!(
        Status::InternalServerError.to_string(),
        "500 Internal Server Error"
    );
    assert_eq!(Status::Created.status_line_bytes(), b"201 Created".to_vec());
}

#[test]
fn content_type_spellings() {
    assert_eq!(TextContentType::Plain.to_string(), "plain");
    assert_eq!(ApplicationContentType::OctetStream.to_string(), "octet-stream");
    assert_eq!(
        ContentType::Text(TextContentType::Plain).to_string(),
        "text/plain"
    );
    assert_eq!(
        ContentType::Application(ApplicationContentType::OctetStream).to_string(),
        "application/octet-stream"
    );
    assert_eq!(
        ContentType::Text(TextContentType::Plain).bytes(),
        b"text/plain".to_vec()
    );
}

#[test]
fn decimal_rendering() {
    assert_eq!(dec_bytes(0), b"0".to_vec());
    assert_eq!(dec_bytes(7), b"7".to_vec());
    assert_eq!(dec_bytes(10), b"10".to_vec());
    assert_eq!(dec_bytes(1234), b"1234".to_vec());
    assert_eq!(dec_bytes(1000000), b"1000000".to_vec());
}

#[test]
fn headers_insert_get_and_overwrite() {
    let mut h = Headers::new();
    assert_eq!(h.len(), 0);
    assert_eq!(h.get(&b"A".to_vec()), None);
    h.insert(b"A".to_vec(), b"1".to_vec());
    h.insert(b"B".to_vec(), b"2".to_vec());
    assert_eq!(h.len(), 2);
    assert_eq!(h.get(&b"A".to_vec()), Some(&b"1".to_vec()));
    h.insert(b"A".to_vec(), b"3".to_vec());
    assert_eq!(h.len(), 2);
    assert_eq!(h.get(&b"A".to_vec()), Some(&b"3".to_vec()));
    assert_eq!(h.wire_bytes(), b"A: 3\r\nB: 2".to_vec());
    assert_eq!(h.wire_lines(), b"A: 3\r\nB: 2\r\n".to_vec());
}

#[test]
fn derived_headers_for_each_content_shape() {
    let none = derive_headers(&None);
    assert_eq!(none.len(), 0);
    let plain = derive_headers(&Some(Content {
        content_type: ContentType::Text(TextContentType::Plain),
        body: b"hello".to_vec(),
        encoding: None,
    }));
    assert_eq!(plain.len(), 2);
    assert_eq!(
        plain.get(&b"Content-Type".to_vec()),
        Some(&b"text/plain".to_vec())
    );
    assert_eq!(plain.get(&b"Content-Length".to_vec()), Some(&b"5".to_vec()));
    assert_eq!(plain.get(&b"Content-Encoding".to_vec()), None);
    let encoded = derive_headers(&Some(Content {
        content_type: ContentType::Application(ApplicationContentType::OctetStream),
        body: b"xyzw".to_vec(),
        encoding: Some(b"gzip".to_vec()),
    }));
    assert_eq!(encoded.len(), 3);
    assert_eq!(
        encoded.get(&b"Content-Encoding".to_vec()),
        Some(&b"gzip".to_vec())
    );
    assert_eq!(encoded.get(&b"Content-Length".to_vec()), Some(&b"4".to_vec()));
}

#[test]
fn response_serialization_shape() {
    let content = Some(Content {
        content_type: ContentType::Text(TextContentType::Plain),
        body: b"hi".to_vec(),
        encoding: None,
    });
    let headers = derive_headers(&content);
    let resp = Response {
        http_version: b"HTTP/1.1".to_vec(),
        status: Status::Okay,
        headers,
        content,
    };
    assert_eq!(
        resp.to_bytes(),
        b"HTTP/1.1 200 OK\r\nContent-Type: text/plain\r\nContent-Length: 2\r\n\r\nhi".to_vec()
    );
}

#[test]
fn request_reconstruction_shape() {
    let mut headers = Headers::new();
    headers.insert(b"Host".to_vec(), b"h".to_vec());
    let req = Request::new(
        HttpMethod::Post,
        b"/files/f".to_vec(),
        b"HTTP/1.1".to_vec(),
        headers,
        Some(b"data".to_vec()),
    );
    assert_eq!(
        req.to_bytes(),
        b"POST /files/f HTTP/1.1\r\nHost: h\r\n\r\ndata".to_vec()
    );
}
