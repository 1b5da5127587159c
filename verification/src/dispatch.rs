//! The route dispatcher: an ordered set of exclusive predicates over the
//! request path, first match wins. Routes that touch the filesystem do not
//! perform the access here; they yield the operation to carry out, and the
//! outcome is turned into a status and content by `finish_read` and
//! `finish_write`.

use vstd::prelude::*;

use crate::bytestr::bytes_eq;
use crate::bytestr::extend;
use crate::bytestr::spec_starts_with;
use crate::bytestr::starts_with;
use crate::bytestr::subvec;
use crate::headers::spec_lookup;
use crate::http::ApplicationContentType;
use crate::http::ContentType;
use crate::http::HttpMethod;
use crate::http::Status;
use crate::http::TextContentType;
use crate::request::ReqView;
use crate::request::Request;
use crate::response::Content;
use crate::response::ContentView;
use crate::response::spec_opt_content;

verus! {

/// The bytes of the path `/`.
pub open spec fn root_path() -> Seq<u8> {
    seq![47u8]
}

/// The bytes of the path `/user-agent`.
pub open spec fn user_agent_path() -> Seq<u8> {
    seq![47u8, 117, 115, 101, 114, 45, 97, 103, 101, 110, 116]
}

/// The bytes of the path prefix `/echo/`.
pub open spec fn echo_prefix() -> Seq<u8> {
    seq![47u8, 101, 99, 104, 111, 47]
}

/// The bytes of the path prefix `/files/`.
pub open spec fn files_prefix() -> Seq<u8> {
    seq![47u8, 102, 105, 108, 101, 115, 47]
}

/// The bytes of the header name `User-Agent`.
pub open spec fn user_agent_key() -> Seq<u8> {
    seq![85u8, 115, 101, 114, 45, 65, 103, 101, 110, 116]
}

/// The header name `User-Agent`, as a vector.
pub fn user_agent_key_vec() -> (r: Vec<u8>)
    ensures
        r@ == user_agent_key(),
{
    let r: Vec<u8> = vec![85u8, 115, 101, 114, 45, 65, 103, 101, 110, 116];
    proof {
        assert(r@ =~= user_agent_key());
    }
    r
}

/// A filesystem operation a route asks its caller to carry out.
pub enum FsOp {
    /// Read the file at this path and hand back its bytes.
    ReadFile(Vec<u8>),
    /// Create or truncate the file at this path and write these bytes.
    WriteFile(Vec<u8>, Vec<u8>),
}

/// The mathematical image of an `FsOp`.
pub enum FsOpView {
    ReadFile(Seq<u8>),
    WriteFile(Seq<u8>, Seq<u8>),
}

impl View for FsOp {
    type V = FsOpView;

    open spec fn view(&self) -> FsOpView {
        match self {
            FsOp::ReadFile(p) => FsOpView::ReadFile(p@),
            FsOp::WriteFile(p, b) => FsOpView::WriteFile(p@, b@),
        }
    }
}

/// What a route decides: either a finished reply, or a filesystem operation
/// whose outcome still has to be folded in.
pub enum Action {
    Reply(Status, Option<Content>),
    Fs(FsOp),
}

/// The mathematical image of an `Action`.
pub enum ActionView {
    Reply(Status, Option<ContentView>),
    Fs(FsOpView),
}

impl View for Action {
    type V = ActionView;

    open spec fn view(&self) -> ActionView {
        match self {
            Action::Reply(s, c) => ActionView::Reply(*s, spec_opt_content(*c)),
            Action::Fs(op) => ActionView::Fs(op@),
        }
    }
}

/// The routing table, as a function of the request and the file-serving
/// root directory. Matching is ordered and exclusive; the first predicate
/// that holds decides.
pub open spec fn spec_dispatch(r: ReqView, root: Seq<u8>) -> ActionView {
    if r.path == root_path() {
        ActionView::Reply(Status::Okay, None)
    } else if r.path == user_agent_path() {
        match spec_lookup(r.headers, user_agent_key()) {
            Some(v) => ActionView::Reply(
                Status::Okay,
                Some(
                    ContentView {
                        content_type: ContentType::Text(TextContentType::Plain),
                        body: v,
                        encoding: None,
                    },
                ),
            ),
            None => ActionView::Reply(Status::InternalServerError, None),
        }
    } else if spec_starts_with(r.path, echo_prefix()) {
        ActionView::Reply(
            Status::Okay,
            Some(
                ContentView {
                    content_type: ContentType::Text(TextContentType::Plain),
                    body: r.path.skip(6),
                    encoding: None,
                },
            ),
        )
    } else if spec_starts_with(r.path, files_prefix()) {
        let full = root + r.path.skip(7);
        match r.method {
            HttpMethod::Get => ActionView::Fs(FsOpView::ReadFile(full)),
            HttpMethod::Post => ActionView::Fs(
                FsOpView::WriteFile(
                    full,
                    match r.body {
                        Some(b) => b,
                        None => seq![],
                    },
                ),
            ),
        }
    } else {
        ActionView::Reply(Status::NotFound, None)
    }
}

/// Decide the route for `req`, with `root` the file-serving root directory.
///
/// The file name of a `/files/` route is joined to the root by plain
/// concatenation, as the routing table states: nothing here keeps a name
/// with `..` segments from escaping the root directory.
pub fn dispatch(req: &Request, root: &Vec<u8>) -> (a: Action)
    ensures
        a@ == spec_dispatch(req@, root@),
{
    let path = req.get_path();
    let root_p: Vec<u8> = vec![47u8];
    let ua_p: Vec<u8> = vec![47u8, 117, 115, 101, 114, 45, 97, 103, 101, 110, 116];
    let echo_p: Vec<u8> = vec![47u8, 101, 99, 104, 111, 47];
    let files_p: Vec<u8> = vec![47u8, 102, 105, 108, 101, 115, 47];
    proof {
        assert(root_p@ =~= root_path());
        assert(ua_p@ =~= user_agent_path());
        assert(echo_p@ =~= echo_prefix());
        assert(files_p@ =~= files_prefix());
    }
    if bytes_eq(path, &root_p) {
        Action::Reply(Status::Okay, None)
    } else if bytes_eq(path, &ua_p) {
        match req.get_headers().get(&user_agent_key_vec()) {
            Some(v) => {
                let body = subvec(v, 0, v.len());
                proof {
                    assert(body@ =~= v@);
                }
                Action::Reply(
                    Status::Okay,
                    Some(
                        Content {
                            content_type: ContentType::Text(TextContentType::Plain),
                            body,
                            encoding: None,
                        },
                    ),
                )
            },
            None => Action::Reply(Status::InternalServerError, None),
        }
    } else if starts_with(path, &echo_p) {
        let body = subvec(path, 6, path.len());
        proof {
            assert(body@ =~= req@.path.skip(6));
        }
        Action::Reply(
            Status::Okay,
            Some(
                Content {
                    content_type: ContentType::Text(TextContentType::Plain),
                    body,
                    encoding: None,
                },
            ),
        )
    } else if starts_with(path, &files_p) {
        let name = subvec(path, 7, path.len());
        let mut full = subvec(root, 0, root.len());
        extend(&mut full, &name);
        proof {
            assert(full@ =~= root@ + req@.path.skip(7));
        }
        match req.get_method() {
            HttpMethod::Get => Action::Fs(FsOp::ReadFile(full)),
            HttpMethod::Post => {
                let body: Vec<u8> = match req.get_body() {
                    Some(b) => subvec(b, 0, b.len()),
                    None => Vec::new(),
                };
                proof {
                    assert(body@ =~= match req@.body {
                        Some(b) => b,
                        None => seq![],
                    });
                }
                Action::Fs(FsOp::WriteFile(full, body))
            },
        }
    } else {
        Action::Reply(Status::NotFound, None)
    }
}

/// Fold the outcome of a file read into a reply: the bytes become an
/// `application/octet-stream` payload, and a failed read is `404 Not Found`.
pub fn finish_read(outcome: Option<Vec<u8>>) -> (r: (Status, Option<Content>))
    ensures
        match outcome {
            Some(data) => r.0 == Status::Okay && spec_opt_content(r.1) == Some(
                ContentView {
                    content_type: ContentType::Application(ApplicationContentType::OctetStream),
                    body: data@,
                    encoding: None,
                },
            ),
            None => r.0 == Status::NotFound && r.1 is None,
        },
{
    match outcome {
        Some(data) => (
            Status::Okay,
            Some(
                Content {
                    content_type: ContentType::Application(ApplicationContentType::OctetStream),
                    body: data,
                    encoding: None,
                },
            ),
        ),
        None => (Status::NotFound, None),
    }
}

/// Fold the outcome of a file write into a reply: `201 Created` on success,
/// `500 Internal Server Error` on failure, never any content.
pub fn finish_write(ok: bool) -> (r: (Status, Option<Content>))
    ensures
        r.0 == if ok {
            Status::Created
        } else {
            Status::InternalServerError
        },
        r.1 is None,
{
    if ok {
        (Status::Created, None)
    } else {
        (Status::InternalServerError, None)
    }
}

} // verus!
