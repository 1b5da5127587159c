//! Requests and the parser that builds them from raw bytes: the byte buffer
//! is decoded leniently, split into CRLF-terminated lines, and read as a
//! request line, a header block, and an optional body.

use vstd::prelude::*;

use crate::bytestr::find2;
use crate::bytestr::spec_find2;
use crate::bytestr::spec_join2;
use crate::bytestr::spec_split2;
use crate::bytestr::spec_tokens;
use crate::bytestr::split2;
use crate::bytestr::split_ws;
use crate::bytestr::subvec;
use crate::bytestr::extend;
use crate::headers::Headers;
use crate::headers::crlf;
use crate::headers::spec_upsert;
use crate::headers::spec_header_lines;
use crate::http::HttpMethod;
use crate::http::spec_method_of;
use crate::http::spec_method_token;

verus! {

/// What the lenient UTF-8 decoding of a byte buffer yields: a function of
/// the bytes alone.
pub uninterp spec fn lossy_utf8(s: Seq<u8>) -> Seq<u8>;

/// Every byte is ASCII, so the buffer is valid UTF-8 as it stands.
pub open spec fn all_ascii(s: Seq<u8>) -> bool {
    forall|i: int| 0 <= i < s.len() ==> s[i] < 128
}

/// Relies on String::from_utf8_lossy: the decoding depends on the raw bytes
/// alone, invalid sequences are replaced rather than rejected, and bytes that
/// are already valid UTF-8 — in particular pure ASCII — come back unchanged.
#[verifier::external_body]
fn decode_lossy(input: &[u8]) -> (r: Vec<u8>)
    ensures
        r@ == lossy_utf8(input@),
        all_ascii(input@) ==> r@ == input@,
{
    String::from_utf8_lossy(input).into_owned().into_bytes()
}

/// Why a byte buffer could not be read as a request.
#[derive(Debug)]
pub enum ParseError {
    /// The buffer held nothing at all.
    EmptyRequest,
    /// The request line did not hold exactly three tokens.
    MalformedRequestLine,
    /// The method token, carried here, names no known method.
    UnknownMethod(Vec<u8>),
    /// The header line carried here lacks the `name: value` separator.
    MalformedHeader(Vec<u8>),
}

/// The mathematical image of a `ParseError`.
pub enum ParseErrorView {
    EmptyRequest,
    MalformedRequestLine,
    UnknownMethod(Seq<u8>),
    MalformedHeader(Seq<u8>),
}

impl View for ParseError {
    type V = ParseErrorView;

    open spec fn view(&self) -> ParseErrorView {
        match self {
            ParseError::EmptyRequest => ParseErrorView::EmptyRequest,
            ParseError::MalformedRequestLine => ParseErrorView::MalformedRequestLine,
            ParseError::UnknownMethod(t) => ParseErrorView::UnknownMethod(t@),
            ParseError::MalformedHeader(l) => ParseErrorView::MalformedHeader(l@),
        }
    }
}

/// The mathematical image of a `Request`.
pub struct ReqView {
    pub method: HttpMethod,
    pub path: Seq<u8>,
    pub http_version: Seq<u8>,
    pub headers: Seq<(Seq<u8>, Seq<u8>)>,
    pub body: Option<Seq<u8>>,
}

/// A parsed request. Built once from raw bytes, read-only afterward.
#[derive(Debug)]
pub struct Request {
    method: HttpMethod,
    path: Vec<u8>,
    http_version: Vec<u8>,
    headers: Headers,
    body: Option<Vec<u8>>,
}

impl View for Request {
    type V = ReqView;

    closed spec fn view(&self) -> ReqView {
        ReqView {
            method: self.method,
            path: self.path@,
            http_version: self.http_version@,
            headers: self.headers@,
            body: match self.body {
                Some(b) => Some(b@),
                None => None,
            },
        }
    }
}

/// Read the lines from index `i` on as header lines, accumulating entries
/// into `acc` last-write-wins, until the first empty line; yield the entries
/// and the index just past the empty line, or the offending line on error.
pub open spec fn spec_parse_headers(
    lines: Seq<Seq<u8>>,
    i: int,
    acc: Seq<(Seq<u8>, Seq<u8>)>,
) -> Result<(Seq<(Seq<u8>, Seq<u8>)>, Option<int>), Seq<u8>>
    recommends
        1 <= i,
    decreases lines.len() - i,
    when 1 <= i
{
    if i >= lines.len() {
        Ok((acc, None))
    } else if lines[i].len() == 0 {
        Ok((acc, Some(i + 1)))
    } else {
        match spec_find2(lines[i], 58, 32, 0) {
            Some(j) => spec_parse_headers(
                lines,
                i + 1,
                spec_upsert(acc, lines[i].subrange(0, j), lines[i].subrange(j + 2, lines[i].len() as int)),
            ),
            None => Err(lines[i]),
        }
    }
}

/// What parsing a decoded byte buffer yields: the request, or the first
/// error in the order the buffer is read.
pub open spec fn spec_parse(s: Seq<u8>) -> Result<ReqView, ParseErrorView> {
    if s.len() == 0 {
        Err(ParseErrorView::EmptyRequest)
    } else {
        let lines = spec_split2(s, 13, 10);
        let parts = spec_tokens(lines[0]);
        if parts.len() != 3 {
            Err(ParseErrorView::MalformedRequestLine)
        } else {
            match spec_method_of(parts[0]) {
                None => Err(ParseErrorView::UnknownMethod(parts[0])),
                Some(m) => match spec_parse_headers(lines, 1, Seq::empty()) {
                    Err(line) => Err(ParseErrorView::MalformedHeader(line)),
                    Ok((hs, blank)) => Ok(
                        ReqView {
                            method: m,
                            path: parts[1],
                            http_version: parts[2],
                            headers: hs,
                            body: match blank {
                                Some(bs) => if bs < lines.len() {
                                    Some(spec_join2(lines.skip(bs), 13, 10))
                                } else {
                                    None
                                },
                                None => None,
                            },
                        },
                    ),
                },
            }
        }
    }
}

/// Rejoin the lines from index `from` on with CRLF between them.
fn join_lines_from(lines: &Vec<Vec<u8>>, from: usize) -> (r: Vec<u8>)
    requires
        from <= lines@.len(),
    ensures
        r@ == spec_join2(lines.deep_view().skip(from as int), 13, 10),
{
    let ghost dv = lines.deep_view();
    let mut r: Vec<u8> = Vec::new();
    let mut i: usize = lines.len();
    proof {
        assert(dv.skip(i as int) =~= Seq::<Seq<u8>>::empty());
    }
    while i > from
        invariant
            from <= i <= lines@.len(),
            dv == lines.deep_view(),
            r@ == spec_join2(dv.skip(i as int), 13, 10),
        decreases i,
    {
        i -= 1;
        let mut line = subvec(&lines[i], 0, lines[i].len());
        proof {
            assert(line@ =~= dv.skip(i as int)[0]);
        }
        if i + 1 < lines.len() {
            line.push(13);
            line.push(10);
        }
        extend(&mut line, &r);
        proof {
            let es = dv.skip(i as int);
            assert(es.drop_first() =~~= dv.skip(i as int + 1));
            if i as int + 1 == dv.len() {
                assert(es.len() == 1);
                assert(line@ =~= spec_join2(es, 13, 10));
            } else {
                assert(es.len() >= 2);
                assert(line@ =~= es[0] + seq![13u8, 10u8] + spec_join2(es.drop_first(), 13, 10));
            }
        }
        r = line;
    }
    r
}

impl Request {
    pub fn get_method(&self) -> (m: &HttpMethod)
        ensures
            *m == self@.method,
    {
        &self.method
    }

    pub fn get_path(&self) -> (p: &Vec<u8>)
        ensures
            p@ == self@.path,
    {
        &self.path
    }

    pub fn get_http_version(&self) -> (v: &Vec<u8>)
        ensures
            v@ == self@.http_version,
    {
        &self.http_version
    }

    pub fn get_headers(&self) -> (h: &Headers)
        ensures
            h@ == self@.headers,
    {
        &self.headers
    }

    pub fn get_body(&self) -> (b: &Option<Vec<u8>>)
        ensures
            match b {
                Some(x) => self@.body == Some(x@),
                None => self@.body is None,
            },
    {
        &self.body
    }

    /// Assemble a request directly from its parts.
    pub fn new(
        method: HttpMethod,
        path: Vec<u8>,
        http_version: Vec<u8>,
        headers: Headers,
        body: Option<Vec<u8>>,
    ) -> (r: Request)
        ensures
            r@.method == method,
            r@.path == path@,
            r@.http_version == http_version@,
            r@.headers == headers@,
            r@.body == match body {
                Some(b) => Some(b@),
                None => None::<Seq<u8>>,
            },
    {
        Request { method, path, http_version, headers, body }
    }

    /// Parse one request out of a raw byte buffer. The buffer is first
    /// decoded leniently; a buffer that is pure ASCII — every byte below
    /// 128 — decodes to itself, so on such input the result is pinned by
    /// `spec_parse` of the raw bytes directly. Whitespace here means the six
    /// ASCII whitespace bytes; a multi-byte character that Unicode counts as
    /// whitespace is ordinary token text to this parser.
    pub fn from_raw(input: &[u8]) -> (r: Result<Request, ParseError>)
        ensures
            match r {
                Ok(req) => spec_parse(lossy_utf8(input@)) == Ok::<ReqView, ParseErrorView>(req@),
                Err(e) => spec_parse(lossy_utf8(input@)) == Err::<ReqView, ParseErrorView>(e@),
            },
            all_ascii(input@) ==> match r {
                Ok(req) => spec_parse(input@) == Ok::<ReqView, ParseErrorView>(req@),
                Err(e) => spec_parse(input@) == Err::<ReqView, ParseErrorView>(e@),
            },
    {
        let norm = decode_lossy(input);
        if norm.len() == 0 {
            return Err(ParseError::EmptyRequest);
        }
        let lines = split2(&norm, 13, 10);
        let ghost dv = lines.deep_view();
        proof {
            assert(dv[0] =~= lines@[0]@);
        }
        let parts = split_ws(&lines[0]);
        let ghost pv = parts.deep_view();
        if parts.len() != 3 {
            return Err(ParseError::MalformedRequestLine);
        }
        proof {
            assert(pv[0] =~= parts@[0]@);
            assert(pv[1] =~= parts@[1]@);
            assert(pv[2] =~= parts@[2]@);
        }
        let method = match HttpMethod::from_string(&parts[0]) {
            Some(m) => m,
            None => {
                let tok = subvec(&parts[0], 0, parts[0].len());
                proof {
                    assert(tok@ =~= pv[0]);
                }
                return Err(ParseError::UnknownMethod(tok));
            },
        };
        let path = subvec(&parts[1], 0, parts[1].len());
        let http_version = subvec(&parts[2], 0, parts[2].len());
        proof {
            assert(path@ =~= pv[1]);
            assert(http_version@ =~= pv[2]);
        }

        let mut headers = Headers::new();
        let mut i: usize = 1;
        let mut blank: Option<usize> = None;
        let mut bad: Option<Vec<u8>> = None;
        loop
            invariant_except_break
                bad is None,
            invariant
                1 <= i <= lines@.len(),
                dv == lines.deep_view(),
                spec_parse_headers(dv, 1, Seq::empty()) == spec_parse_headers(
                    dv,
                    i as int,
                    headers@,
                ),
            ensures
                1 <= i <= lines@.len(),
                dv == lines.deep_view(),
                match bad {
                    Some(line) => spec_parse_headers(dv, 1, Seq::empty()) == Err::<
                        (Seq<(Seq<u8>, Seq<u8>)>, Option<int>),
                        Seq<u8>,
                    >(line@),
                    None => match blank {
                        Some(bs) => bs == i + 1 && (i as int) < dv.len() && spec_parse_headers(
                            dv,
                            1,
                            Seq::empty(),
                        ) == Ok::<_, Seq<u8>>((headers@, Some(i as int + 1))),
                        None => spec_parse_headers(dv, 1, Seq::empty()) == Ok::<_, Seq<u8>>(
                            (headers@, None::<int>),
                        ),
                    },
                },
            decreases lines@.len() - i,
        {
            if i >= lines.len() {
                blank = None;
                break ;
            }
            proof {
                assert(dv[i as int] =~= lines@[i as int]@);
            }
            if lines[i].len() == 0 {
                blank = Some(i + 1);
                break ;
            }
            let ghost acc0 = headers@;
            match find2(&lines[i], 58, 32, 0) {
                Some(j) => {
                    let k = subvec(&lines[i], 0, j);
                    let v = subvec(&lines[i], j + 2, lines[i].len());
                    headers.insert(k, v);
                    proof {
                        assert(spec_parse_headers(dv, i as int, acc0) == spec_parse_headers(
                            dv,
                            i as int + 1,
                            headers@,
                        ));
                    }
                },
                None => {
                    let line = subvec(&lines[i], 0, lines[i].len());
                    proof {
                        assert(line@ =~= dv[i as int]);
                    }
                    bad = Some(line);
                    break ;
                },
            }
            i += 1;
        }
        if let Some(line) = bad {
            return Err(ParseError::MalformedHeader(line));
        }

        let body: Option<Vec<u8>> = match blank {
            Some(bs) => {
                if bs < lines.len() {
                    Some(join_lines_from(&lines, bs))
                } else {
                    None
                }
            },
            None => None,
        };

        let req = Request { method, path, http_version, headers, body };
        Ok(req)
    }
}

/// The wire form of a request: request line, header lines, and — when a body
/// is present — a blank line followed by the body bytes.
pub open spec fn spec_req_wire(m: ReqView) -> Seq<u8> {
    spec_method_token(m.method) + seq![32u8] + m.path + seq![32u8] + m.http_version + crlf()
        + spec_header_lines(m.headers) + match m.body {
        Some(b) => crlf() + b,
        None => seq![],
    }
}

impl Request {
    /// Reconstruct the wire form this request stands for.
    pub fn to_bytes(&self) -> (w: Vec<u8>)
        ensures
            w@ == spec_req_wire(self@),
    {
        let mut w = self.method.token_bytes();
        w.push(32);
        extend(&mut w, &self.path);
        w.push(32);
        extend(&mut w, &self.http_version);
        w.push(13);
        w.push(10);
        let hl = self.headers.wire_lines();
        extend(&mut w, &hl);
        match &self.body {
            Some(b) => {
                w.push(13);
                w.push(10);
                extend(&mut w, b);
                proof {
                    assert(w@ =~= spec_req_wire(self@));
                }
            },
            None => {
                proof {
                    assert(w@ =~= spec_req_wire(self@));
                }
            },
        }
        w
    }
}

} // verus!
