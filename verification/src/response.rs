//! Responses: typed content, the deterministic derivation of response
//! headers from that content, and the serializer that renders a response
//! into wire bytes.

use vstd::prelude::*;

use crate::bytestr::dec_bytes;
use crate::bytestr::extend;
use crate::bytestr::spec_dec;
use crate::bytestr::subvec;
use crate::headers::Headers;
use crate::headers::spec_headers_wire;
use crate::headers::spec_find_key;
use crate::http::ContentType;
use crate::http::Status;
use crate::http::spec_content_type_bytes;
use crate::http::spec_status_line;

verus! {

/// A response payload: its type, its bytes, and — once compression has
/// succeeded — the name of the encoding applied to it.
#[derive(Debug)]
pub struct Content {
    pub content_type: ContentType,
    pub body: Vec<u8>,
    pub encoding: Option<Vec<u8>>,
}

/// The mathematical image of a `Content`.
pub struct ContentView {
    pub content_type: ContentType,
    pub body: Seq<u8>,
    pub encoding: Option<Seq<u8>>,
}

impl View for Content {
    type V = ContentView;

    open spec fn view(&self) -> ContentView {
        ContentView {
            content_type: self.content_type,
            body: self.body@,
            encoding: match self.encoding {
                Some(e) => Some(e@),
                None => None,
            },
        }
    }
}

/// The view of an optional content value.
pub open spec fn spec_opt_content(c: Option<Content>) -> Option<ContentView> {
    match c {
        Some(x) => Some(x@),
        None => None,
    }
}

/// The bytes of the header name `Content-Type`.
pub open spec fn content_type_key() -> Seq<u8> {
    seq![67u8, 111, 110, 116, 101, 110, 116, 45, 84, 121, 112, 101]
}

/// The bytes of the header name `Content-Length`.
pub open spec fn content_length_key() -> Seq<u8> {
    seq![67u8, 111, 110, 116, 101, 110, 116, 45, 76, 101, 110, 103, 116, 104]
}

/// The bytes of the header name `Content-Encoding`.
pub open spec fn content_encoding_key() -> Seq<u8> {
    seq![67u8, 111, 110, 116, 101, 110, 116, 45, 69, 110, 99, 111, 100, 105, 110, 103]
}

/// The header name `Content-Type`, as a vector.
pub fn content_type_key_vec() -> (r: Vec<u8>)
    ensures
        r@ == content_type_key(),
{
    let r: Vec<u8> = vec![67u8, 111, 110, 116, 101, 110, 116, 45, 84, 121, 112, 101];
    proof {
        assert(r@ =~= content_type_key());
    }
    r
}

/// The header name `Content-Length`, as a vector.
pub fn content_length_key_vec() -> (r: Vec<u8>)
    ensures
        r@ == content_length_key(),
{
    let r: Vec<u8> = vec![67u8, 111, 110, 116, 101, 110, 116, 45, 76, 101, 110, 103, 116, 104];
    proof {
        assert(r@ =~= content_length_key());
    }
    r
}

/// The header name `Content-Encoding`, as a vector.
pub fn content_encoding_key_vec() -> (r: Vec<u8>)
    ensures
        r@ == content_encoding_key(),
{
    let r: Vec<u8> = vec![
        67u8,
        111,
        110,
        116,
        101,
        110,
        116,
        45,
        69,
        110,
        99,
        111,
        100,
        105,
        110,
        103,
    ];
    proof {
        assert(r@ =~= content_encoding_key());
    }
    r
}

/// The headers a response carries, derived from its content alone: nothing
/// when there is no content; otherwise exactly `Content-Type` and
/// `Content-Length`, and `Content-Encoding` exactly when an encoding is set.
pub open spec fn spec_derived_headers(c: Option<ContentView>) -> Seq<(Seq<u8>, Seq<u8>)> {
    match c {
        None => seq![],
        Some(c) => {
            let base = seq![
                (content_type_key(), spec_content_type_bytes(c.content_type)),
                (content_length_key(), spec_dec(c.body.len())),
            ];
            match c.encoding {
                Some(e) => base.push((content_encoding_key(), e)),
                None => base,
            }
        },
    }
}

/// Derive the response headers owed to `content`.
pub fn derive_headers(content: &Option<Content>) -> (h: Headers)
    ensures
        h@ == spec_derived_headers(spec_opt_content(*content)),
{
    let mut h = Headers::new();
    match content {
        None => {
            proof {
                assert(h@ =~~= spec_derived_headers(spec_opt_content(*content)));
            }
        },
        Some(c) => {
            h.insert(content_type_key_vec(), c.content_type.bytes());
            proof {
                assert(h@ =~~= seq![
                    (content_type_key(), spec_content_type_bytes(c.content_type)),
                ]);
            }
            let ghost h1 = h@;
            h.insert(content_length_key_vec(), dec_bytes(c.body.len()));
            proof {
                assert(spec_find_key(h1, content_length_key(), 1) is None);
                assert(spec_find_key(h1, content_length_key(), 0) is None);
                assert(h@ =~~= h1.push((content_length_key(), spec_dec(c.body@.len()))));
            }
            let ghost h2 = h@;
            match &c.encoding {
                Some(e) => {
                    let ec = subvec(e, 0, e.len());
                    proof {
                        assert(ec@ =~= e@);
                    }
                    h.insert(content_encoding_key_vec(), ec);
                    proof {
                        assert(spec_find_key(h2, content_encoding_key(), 2) is None);
                        assert(spec_find_key(h2, content_encoding_key(), 1) is None);
                        assert(spec_find_key(h2, content_encoding_key(), 0) is None);
                        assert(h@ =~~= h2.push((content_encoding_key(), e@)));
                    }
                },
                None => {},
            }
            proof {
                assert(h@ =~~= spec_derived_headers(spec_opt_content(*content)));
            }
        },
    }
    h
}

/// A response: the protocol version echoed from the request, a status, the
/// headers derived from the content, and the content itself.
#[derive(Debug)]
pub struct Response {
    pub http_version: Vec<u8>,
    pub status: Status,
    pub headers: Headers,
    pub content: Option<Content>,
}

/// The mathematical image of a `Response`.
pub struct ResponseView {
    pub http_version: Seq<u8>,
    pub status: Status,
    pub headers: Seq<(Seq<u8>, Seq<u8>)>,
    pub content: Option<ContentView>,
}

impl View for Response {
    type V = ResponseView;

    open spec fn view(&self) -> ResponseView {
        ResponseView {
            http_version: self.http_version@,
            status: self.status,
            headers: self.headers@,
            content: spec_opt_content(self.content),
        }
    }
}

/// The wire form of a response: `version SP status-line CRLF headers CRLF
/// CRLF body`, the body absent when there is no content.
pub open spec fn spec_serialize(r: ResponseView) -> Seq<u8> {
    r.http_version + seq![32u8] + spec_status_line(r.status) + seq![13u8, 10] + spec_headers_wire(
        r.headers,
    ) + seq![13u8, 10, 13, 10] + match r.content {
        Some(c) => c.body,
        None => seq![],
    }
}

impl Response {
    /// Render this response into its wire bytes.
    pub fn to_bytes(&self) -> (w: Vec<u8>)
        ensures
            w@ == spec_serialize(self@),
    {
        let mut w = subvec(&self.http_version, 0, self.http_version.len());
        w.push(32);
        let sl = self.status.status_line_bytes();
        extend(&mut w, &sl);
        w.push(13);
        w.push(10);
        let hw = self.headers.wire_bytes();
        extend(&mut w, &hw);
        w.push(13);
        w.push(10);
        w.push(13);
        w.push(10);
        match &self.content {
            Some(c) => {
                extend(&mut w, &c.body);
                proof {
                    assert(w@ =~= spec_serialize(self@));
                }
            },
            None => {
                proof {
                    assert(w@ =~= spec_serialize(self@));
                }
            },
        }
        w
    }
}

} // verus!
