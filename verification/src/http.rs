//! The typed model of the protocol: request methods, response statuses and
//! content types, each a closed enumeration whose wire spellings are fixed
//! byte sequences.

use vstd::prelude::*;

use crate::bytestr::spec_dec;
use crate::bytestr::dec_bytes;
use crate::bytestr::bytes_eq;

verus! {

/// A request method. An unrecognized method token is a parse error.
#[derive(Clone, Copy, Debug, PartialEq, Eq, Structural)]
pub enum HttpMethod {
    Get,
    Post,
}

/// The bytes of the token `GET`.
pub open spec fn get_token() -> Seq<u8> {
    seq![71u8, 69, 84]
}

/// The bytes of the token `POST`.
pub open spec fn post_token() -> Seq<u8> {
    seq![80u8, 79, 83, 84]
}

/// The wire spelling of a method.
pub open spec fn spec_method_token(m: HttpMethod) -> Seq<u8> {
    match m {
        HttpMethod::Get => get_token(),
        HttpMethod::Post => post_token(),
    }
}

/// The method a request-line token names, if any.
pub open spec fn spec_method_of(tok: Seq<u8>) -> Option<HttpMethod> {
    if tok == get_token() {
        Some(HttpMethod::Get)
    } else if tok == post_token() {
        Some(HttpMethod::Post)
    } else {
        None
    }
}

impl HttpMethod {
    pub fn to_string(&self) -> (r: &'static str)
        ensures
            self is Get ==> r@ == "GET"@,
            self is Post ==> r@ == "POST"@,
    {
        match self {
            HttpMethod::Get => "GET",
            HttpMethod::Post => "POST",
        }
    }

    /// The wire spelling of this method, as bytes.
    pub fn token_bytes(&self) -> (r: Vec<u8>)
        ensures
            r@ == spec_method_token(*self),
    {
        let r: Vec<u8> = match self {
            HttpMethod::Get => vec![71u8, 69, 84],
            HttpMethod::Post => vec![80u8, 79, 83, 84],
        };
        proof {
            assert(r@ =~= spec_method_token(*self));
        }
        r
    }

    /// The method named by `tok`, or none: unknown tokens are rejected, not
    /// defaulted.
    pub fn from_string(tok: &Vec<u8>) -> (r: Option<HttpMethod>)
        ensures
            r == spec_method_of(tok@),
    {
        let get: Vec<u8> = vec![71u8, 69, 84];
        let post: Vec<u8> = vec![80u8, 79, 83, 84];
        proof {
            assert(get@ =~= get_token());
            assert(post@ =~= post_token());
        }
        if bytes_eq(tok, &get) {
            Some(HttpMethod::Get)
        } else if bytes_eq(tok, &post) {
            Some(HttpMethod::Post)
        } else {
            None
        }
    }
}

/// A response status: a fixed numeric code and reason phrase, defined
/// together so they cannot drift apart.
#[derive(Clone, Copy, Debug, PartialEq, Eq, Structural)]
pub enum Status {
    Okay,
    Created,
    NotFound,
    InternalServerError,
}

/// The numeric code of a status.
pub open spec fn spec_status_code(s: Status) -> nat {
    match s {
        Status::Okay => 200,
        Status::Created => 201,
        Status::NotFound => 404,
        Status::InternalServerError => 500,
    }
}

/// The reason phrase of a status, as bytes.
pub open spec fn spec_reason(s: Status) -> Seq<u8> {
    match s {
        Status::Okay => seq![79u8, 75],
        Status::Created => seq![67u8, 114, 101, 97, 116, 101, 100],
        Status::NotFound => seq![78u8, 111, 116, 32, 70, 111, 117, 110, 100],
        Status::InternalServerError => seq![
            73u8,
            110,
            116,
            101,
            114,
            110,
            97,
            108,
            32,
            83,
            101,
            114,
            118,
            101,
            114,
            32,
            69,
            114,
            114,
            111,
            114,
        ],
    }
}

/// The status line fragment `code SP reason`, as bytes.
pub open spec fn spec_status_line(s: Status) -> Seq<u8> {
    spec_dec(spec_status_code(s)) + seq![32u8] + spec_reason(s)
}

impl Status {
    pub fn get_status_code(&self) -> (code: u16)
        ensures
            code == spec_status_code(*self),
    {
        match self {
            Status::Okay => 200,
            Status::Created => 201,
            Status::NotFound => 404,
            Status::InternalServerError => 500,
        }
    }

    pub fn get_text_code(&self) -> (r: &'static str)
        ensures
            self is Okay ==> r@ == "OK"@,
            self is Created ==> r@ == "Created"@,
            self is NotFound ==> r@ == "Not Found"@,
            self is InternalServerError ==> r@ == "Internal Server Error"@,
    {
        match self {
            Status::Okay => "OK",
            Status::Created => "Created",
            Status::NotFound => "Not Found",
            Status::InternalServerError => "Internal Server Error",
        }
    }

    pub fn to_string(&self) -> (r: String)
        ensures
            self is Okay ==> r@ == "200 OK"@,
            self is Created ==> r@ == "201 Created"@,
            self is NotFound ==> r@ == "404 Not Found"@,
            self is InternalServerError ==> r@ == "500 Internal Server Error"@,
    {
        match self {
            Status::Okay => "200 OK".to_owned(),
            Status::Created => "201 Created".to_owned(),
            Status::NotFound => "404 Not Found".to_owned(),
            Status::InternalServerError => "500 Internal Server Error".to_owned(),
        }
    }

    /// The status line fragment `code SP reason`, as bytes.
    pub fn status_line_bytes(&self) -> (r: Vec<u8>)
        ensures
            r@ == spec_status_line(*self),
    {
        let code = self.get_status_code();
        let mut r = dec_bytes(code as usize);
        r.push(32);
        let reason: Vec<u8> = match self {
            Status::Okay => vec![79u8, 75],
            Status::Created => vec![67u8, 114, 101, 97, 116, 101, 100],
            Status::NotFound => vec![78u8, 111, 116, 32, 70, 111, 117, 110, 100],
            Status::InternalServerError => vec![
                73u8,
                110,
                116,
                101,
                114,
                110,
                97,
                108,
                32,
                83,
                101,
                114,
                118,
                101,
                114,
                32,
                69,
                114,
                114,
                111,
                114,
            ],
        };
        let mut i: usize = 0;
        while i < reason.len()
            invariant
                0 <= i <= reason@.len(),
                r@ == spec_dec(spec_status_code(*self)) + seq![32u8] + reason@.subrange(
                    0,
                    i as int,
                ),
            decreases reason@.len() - i,
        {
            r.push(reason[i]);
            proof {
                assert(r@ =~= spec_dec(spec_status_code(*self)) + seq![32u8] + reason@.subrange(
                    0,
                    i as int + 1,
                ));
            }
            i += 1;
        }
        proof {
            assert(reason@.subrange(0, reason@.len() as int) =~= reason@);
            assert(reason@ =~= spec_reason(*self));
        }
        r
    }
}

/// The subtypes of `text/...` content.
#[derive(Clone, Copy, Debug, PartialEq, Eq, Structural)]
pub enum TextContentType {
    Plain,
}

/// The subtypes of `application/...` content.
#[derive(Clone, Copy, Debug, PartialEq, Eq, Structural)]
pub enum ApplicationContentType {
    OctetStream,
}

/// A content type, a closed two-level enumeration.
#[derive(Clone, Copy, Debug, PartialEq, Eq, Structural)]
pub enum ContentType {
    Text(TextContentType),
    Application(ApplicationContentType),
}

/// The wire spelling of a content type, as bytes.
pub open spec fn spec_content_type_bytes(ct: ContentType) -> Seq<u8> {
    match ct {
        ContentType::Text(TextContentType::Plain) => seq![
            116u8,
            101,
            120,
            116,
            47,
            112,
            108,
            97,
            105,
            110,
        ],
        ContentType::Application(ApplicationContentType::OctetStream) => seq![
            97u8,
            112,
            112,
            108,
            105,
            99,
            97,
            116,
            105,
            111,
            110,
            47,
            111,
            99,
            116,
            101,
            116,
            45,
            115,
            116,
            114,
            101,
            97,
            109,
        ],
    }
}

impl TextContentType {
    pub fn to_string(&self) -> (r: &'static str)
        ensures
            r@ == "plain"@,
    {
        match self {
            TextContentType::Plain => "plain",
        }
    }
}

impl ApplicationContentType {
    pub fn to_string(&self) -> (r: &'static str)
        ensures
            r@ == "octet-stream"@,
    {
        match self {
            ApplicationContentType::OctetStream => "octet-stream",
        }
    }
}

impl ContentType {
    pub fn to_string(&self) -> (r: String)
        ensures
            self matches ContentType::Text(TextContentType::Plain) ==> r@ == "text/plain"@,
            self matches ContentType::Application(ApplicationContentType::OctetStream) ==> r@
                == "application/octet-stream"@,
    {
        match self {
            ContentType::Text(TextContentType::Plain) => "text/plain".to_owned(),
            ContentType::Application(ApplicationContentType::OctetStream) =>
                "application/octet-stream".to_owned(),
        }
    }

    /// The wire spelling of this content type, as bytes.
    pub fn bytes(&self) -> (r: Vec<u8>)
        ensures
            r@ == spec_content_type_bytes(*self),
    {
        let r: Vec<u8> = match self {
            ContentType::Text(TextContentType::Plain) => vec![
                116u8,
                101,
                120,
                116,
                47,
                112,
                108,
                97,
                105,
                110,
            ],
            ContentType::Application(ApplicationContentType::OctetStream) => vec![
                97u8,
                112,
                112,
                108,
                105,
                99,
                97,
                116,
                105,
                111,
                110,
                47,
                111,
                99,
                116,
                101,
                116,
                45,
                115,
                116,
                114,
                101,
                97,
                109,
            ],
        };
        proof {
            assert(r@ =~= spec_content_type_bytes(*self));
        }
        r
    }
}

} // verus!
