//! Content-encoding negotiation: reading the client's `Accept-Encoding`
//! list, compressing the payload when `gzip` is accepted, and assembling the
//! final response with its derived headers.

use vstd::prelude::*;

use crate::bytestr::bytes_eq;
use crate::bytestr::spec_split1;
use crate::bytestr::spec_trim;
use crate::bytestr::split1;
use crate::bytestr::subvec;
use crate::bytestr::trim;
use crate::headers::spec_lookup;
use crate::http::Status;
use crate::request::Request;
use crate::response::Content;
use crate::response::ContentView;
use crate::response::Response;
use crate::response::derive_headers;
use crate::response::spec_derived_headers;
use crate::response::spec_opt_content;

verus! {

/// The bytes of the encoding token `gzip`.
pub open spec fn gzip_token() -> Seq<u8> {
    seq![103u8, 122, 105, 112]
}

/// The encoding token `gzip`, as a vector.
pub fn gzip_token_vec() -> (r: Vec<u8>)
    ensures
        r@ == gzip_token(),
{
    let r: Vec<u8> = vec![103u8, 122, 105, 112];
    proof {
        assert(r@ =~= gzip_token());
    }
    r
}

/// The bytes of the header name `Accept-Encoding`.
pub open spec fn accept_encoding_key() -> Seq<u8> {
    seq![65u8, 99, 99, 101, 112, 116, 45, 69, 110, 99, 111, 100, 105, 110, 103]
}

/// The header name `Accept-Encoding`, as a vector.
pub fn accept_encoding_key_vec() -> (r: Vec<u8>)
    ensures
        r@ == accept_encoding_key(),
{
    let r: Vec<u8> = vec![65u8, 99, 99, 101, 112, 116, 45, 69, 110, 99, 111, 100, 105, 110, 103];
    proof {
        assert(r@ =~= accept_encoding_key());
    }
    r
}

/// What gzip compression of a byte sequence yields: a function of the bytes
/// alone, at the library's fixed default level.
pub uninterp spec fn gzip_of(data: Seq<u8>) -> Seq<u8>;

/// Relies on flate2's write::GzEncoder at the default compression level:
/// the stream it produces is a function of the input bytes alone — the
/// header it writes fixes the time stamp to zero and the operating-system
/// byte to a constant, for reproducible output. The call succeeds on every
/// input: the sink is a plain vector, whose writes cannot fail, and the
/// compressor reports an error only for a corrupt stream state, which
/// compressing a byte sequence cannot produce.
#[verifier::external_body]
fn gzip_compress(data: &Vec<u8>) -> (r: Option<Vec<u8>>)
    ensures
        r is Some,
        r matches Some(z) ==> z@ == gzip_of(data@),
{
    let mut enc = flate2::write::GzEncoder::new(Vec::new(), flate2::Compression::default());
    if std::io::Write::write_all(&mut enc, data.as_slice()).is_err() {
        return None;
    }
    enc.finish().ok()
}

/// Does a comma-separated `Accept-Encoding` value, each element trimmed of
/// surrounding whitespace, contain the token `gzip`?
pub open spec fn spec_list_has_gzip(v: Seq<u8>) -> bool {
    exists|i: int|
        0 <= i < spec_split1(v, 44).len() && spec_trim(#[trigger] spec_split1(v, 44)[i])
            == gzip_token()
}

/// Does the request accept the `gzip` encoding?
pub open spec fn spec_accepts_gzip(headers: Seq<(Seq<u8>, Seq<u8>)>) -> bool {
    match spec_lookup(headers, accept_encoding_key()) {
        Some(v) => spec_list_has_gzip(v),
        None => false,
    }
}

/// Decide whether `req` accepts the `gzip` encoding.
pub fn accepts_gzip(req: &Request) -> (r: bool)
    ensures
        r == spec_accepts_gzip(req@.headers),
{
    match req.get_headers().get(&accept_encoding_key_vec()) {
        None => false,
        Some(v) => {
            let parts = split1(v, 44);
            let ghost dv = parts.deep_view();
            let gz = gzip_token_vec();
            let mut i: usize = 0;
            while i < parts.len()
                invariant
                    0 <= i <= parts@.len(),
                    dv == parts.deep_view(),
                    dv == spec_split1(v@, 44),
                    spec_lookup(req@.headers, accept_encoding_key()) == Some(v@),
                    gz@ == gzip_token(),
                    forall|k: int| 0 <= k < i ==> spec_trim(#[trigger] dv[k]) != gzip_token(),
                decreases parts@.len() - i,
            {
                let t = trim(&parts[i]);
                proof {
                    assert(dv[i as int] =~= parts@[i as int]@);
                }
                if bytes_eq(&t, &gz) {
                    assert(spec_trim(spec_split1(v@, 44)[i as int]) == gzip_token());
                    return true;
                }
                i += 1;
            }
            false
        },
    }
}

/// How negotiation relates what the dispatcher produced to what the response
/// carries: when `gzip` is not accepted, or there is no content, both pass
/// through untouched; otherwise the status is kept, the body is the
/// compressed bytes, and the encoding is set.
pub open spec fn spec_negotiated(
    acc: bool,
    status: Status,
    content: Option<ContentView>,
    out_status: Status,
    out_content: Option<ContentView>,
) -> bool {
    if acc && content is Some {
        let c = content.unwrap();
        out_status == status && out_content == Some(
            ContentView {
                content_type: c.content_type,
                body: gzip_of(c.body),
                encoding: Some(gzip_token()),
            },
        )
    } else {
        out_status == status && out_content == content
    }
}

/// Negotiate the encoding for a dispatched reply and assemble the response:
/// the version is echoed from the request and the headers are derived from
/// the final content.
pub fn finish_request(req: &Request, status: Status, content: Option<Content>) -> (resp: Response)
    ensures
        resp@.http_version == req@.http_version,
        spec_negotiated(
            spec_accepts_gzip(req@.headers),
            status,
            spec_opt_content(content),
            resp@.status,
            resp@.content,
        ),
        resp@.headers == spec_derived_headers(resp@.content),
{
    let acc = accepts_gzip(req);
    let (status2, content2): (Status, Option<Content>) = if acc {
        match content {
            Some(c) => {
                match gzip_compress(&c.body) {
                    Some(z) => (
                        status,
                        Some(
                            Content {
                                content_type: c.content_type,
                                body: z,
                                encoding: Some(gzip_token_vec()),
                            },
                        ),
                    ),
                    // Unreachable: the compressor owes success. A failure
                    // would discard the content and degrade the reply.
                    None => (Status::InternalServerError, None),
                }
            },
            None => (status, None),
        }
    } else {
        match content {
            Some(c) => (status, Some(c)),
            None => (status, None),
        }
    };
    let headers = derive_headers(&content2);
    let version = subvec(req.get_http_version(), 0, req.get_http_version().len());
    proof {
        assert(version@ =~= req@.http_version);
    }
    Response { http_version: version, status: status2, headers, content: content2 }
}

} // verus!
