//! Routing of parsed requests to handlers.
//!
//! Routing is by path: `/` exactly, then the prefixes `/echo`,
//! `/user-agent` and `/files`, first match wins; anything else is a 404.
//! The file routes do no I/O here: they yield a read or write action for
//! the caller to perform, and `file_read_response` / `file_write_response`
//! turn the outcome back into a response.

use vstd::prelude::*;
use vstd::slice::{slice_subrange, slice_to_vec};
use vstd::string::StringSliceAdditionalSpecFns;
use crate::gz::{gzip_compress, gzip_of};
use crate::request::{get_header_value, headers_view, spec_header_lookup, Method, Request, SpecRequest};
use crate::response::{Header, Response, SpecResponse};
use crate::wire::{bytes_contains, bytes_starts_with, bytes_eq, contains_seq, dec_digits};

verus! {

/// A handler failed for a reason other than the request's content (here:
/// only compression).
#[derive(Clone, Copy, PartialEq, Eq, Structural, Debug)]
pub struct HandlerError;

/// What routing decides: an immediate reply, or a file action the caller
/// must perform against the served directory.
pub enum RouteOutcome {
    Reply(Response),
    FileRead(Vec<u8>),
    FileWrite(Vec<u8>, Vec<u8>),
}

/// The mathematical value of a routing decision.
#[verifier::ext_equal]
pub ghost enum SpecOutcome {
    Reply(SpecResponse),
    FileRead(Seq<u8>),
    FileWrite(Seq<u8>, Seq<u8>),
}

impl View for RouteOutcome {
    type V = SpecOutcome;

    open spec fn view(&self) -> SpecOutcome {
        match self {
            RouteOutcome::Reply(resp) => SpecOutcome::Reply(resp@),
            RouteOutcome::FileRead(name) => SpecOutcome::FileRead(name@),
            RouteOutcome::FileWrite(name, contents) => SpecOutcome::FileWrite(name@, contents@),
        }
    }
}

/// A 200 response carrying `body` with the given `Content-Type`.
pub open spec fn spec_ok_with(content_type: Seq<u8>, body: Seq<u8>) -> SpecResponse {
    SpecResponse {
        code: 200,
        reason: "OK".spec_bytes(),
        headers: seq![
            ("Content-Type".spec_bytes(), content_type),
            ("Content-Length".spec_bytes(), dec_digits(body.len())),
        ],
        body,
    }
}

/// A response with the given status and body, framed by the one header
/// every reply carries: a `Content-Length` for the body.
pub open spec fn spec_with_len(code: u16, reason: Seq<u8>, body: Seq<u8>) -> SpecResponse {
    SpecResponse {
        code,
        reason,
        headers: seq![("Content-Length".spec_bytes(), dec_digits(body.len()))],
        body,
    }
}

/// The echo payload: what follows `/echo/` in the path, or nothing.
pub open spec fn spec_echo_payload(path: Seq<u8>) -> Seq<u8> {
    if "/echo/".spec_bytes().is_prefix_of(path) {
        path.skip("/echo/".spec_bytes().len() as int)
    } else {
        Seq::empty()
    }
}

/// Whether the request's `Accept-Encoding` header contains `gzip`.
pub open spec fn spec_gzip_wanted(hs: Seq<(Seq<u8>, Seq<u8>)>) -> bool {
    match spec_header_lookup(hs, "Accept-Encoding".spec_bytes()) {
        Option::Some(v) => contains_seq(v, "gzip".spec_bytes()),
        Option::None => false,
    }
}

/// The plain echo response: the payload verbatim, as `text/plain`.
pub open spec fn spec_echo_plain(payload: Seq<u8>) -> SpecResponse {
    spec_ok_with("text/plain".spec_bytes(), payload)
}

/// The compressed echo response: gzip of the payload, marked as such.
pub open spec fn spec_echo_gzip(payload: Seq<u8>) -> SpecResponse {
    SpecResponse {
        code: 200,
        reason: "OK".spec_bytes(),
        headers: seq![
            ("Content-Encoding".spec_bytes(), "gzip".spec_bytes()),
            ("Content-Type".spec_bytes(), "text/plain".spec_bytes()),
            ("Content-Length".spec_bytes(), dec_digits(gzip_of(payload).len())),
        ],
        body: gzip_of(payload),
    }
}

/// The user-agent reflection: the header's value as the body, or a 400
/// when the header is absent.
pub open spec fn spec_user_agent(hs: Seq<(Seq<u8>, Seq<u8>)>) -> SpecResponse {
    match spec_header_lookup(hs, "User-Agent".spec_bytes()) {
        Option::Some(v) => spec_ok_with("text/plain".spec_bytes(), v),
        Option::None => spec_with_len(
            400,
            "Bad Request".spec_bytes(),
            "User-Agent header not found".spec_bytes(),
        ),
    }
}

/// The file name in a `/files/<name>` path, or nothing.
pub open spec fn spec_file_name(path: Seq<u8>) -> Seq<u8> {
    if "/files/".spec_bytes().is_prefix_of(path) {
        path.skip("/files/".spec_bytes().len() as int)
    } else {
        Seq::empty()
    }
}

/// Whether the request routes to echo and asks for gzip: the one route
/// on which a handler may fail.
pub open spec fn spec_gzip_route(req: SpecRequest) -> bool {
    &&& req.path != "/".spec_bytes()
    &&& "/echo".spec_bytes().is_prefix_of(req.path)
    &&& spec_gzip_wanted(req.headers)
}

/// What routing yields for a request, assuming no handler failure.
pub open spec fn spec_route(req: SpecRequest) -> SpecOutcome {
    if req.path == "/".spec_bytes() {
        SpecOutcome::Reply(spec_with_len(200, "OK".spec_bytes(), Seq::empty()))
    } else if "/echo".spec_bytes().is_prefix_of(req.path) {
        if spec_gzip_wanted(req.headers) {
            SpecOutcome::Reply(spec_echo_gzip(spec_echo_payload(req.path)))
        } else {
            SpecOutcome::Reply(spec_echo_plain(spec_echo_payload(req.path)))
        }
    } else if "/user-agent".spec_bytes().is_prefix_of(req.path) {
        SpecOutcome::Reply(spec_user_agent(req.headers))
    } else if "/files".spec_bytes().is_prefix_of(req.path) {
        if spec_file_name(req.path).len() == 0 {
            SpecOutcome::Reply(
                spec_with_len(
                    400,
                    "Bad Request".spec_bytes(),
                    "File name is required".spec_bytes(),
                ),
            )
        } else {
            match req.method {
                Method::Get => SpecOutcome::FileRead(spec_file_name(req.path)),
                Method::Post => SpecOutcome::FileWrite(spec_file_name(req.path), req.body),
                Method::Other => SpecOutcome::Reply(
                    spec_with_len(405, "Method Not Allowed".spec_bytes(), Seq::empty()),
                ),
            }
        }
    } else {
        SpecOutcome::Reply(
            spec_with_len(404, "Not Found".spec_bytes(), "Invalid path".spec_bytes()),
        )
    }
}

/// A path that no route recognises is answered with a 404 whose body is
/// not empty.
pub proof fn lemma_unknown_path_not_found(req: SpecRequest)
    requires
        req.path != "/".spec_bytes(),
        !"/echo".spec_bytes().is_prefix_of(req.path),
        !"/user-agent".spec_bytes().is_prefix_of(req.path),
        !"/files".spec_bytes().is_prefix_of(req.path),
    ensures
        spec_route(req) matches SpecOutcome::Reply(r) && r.code == 404 && r.body.len() > 0,
{
    broadcast use vstd::string::is_ascii_spec_bytes;

    reveal_strlit("Invalid path");
    assert("Invalid path".is_ascii());
    assert("Invalid path".spec_bytes().len() == 12);
}

/// Writing then reading the same file round-trips: the write action a
/// `POST /files/<name>` yields carries the request body verbatim, and
/// the read response for those bytes carries them verbatim back.
pub proof fn lemma_files_round_trip(post_req: SpecRequest)
    requires
        post_req.method == Method::Post,
        "/files".spec_bytes().is_prefix_of(post_req.path),
        spec_file_name(post_req.path).len() > 0,
    ensures
        spec_route(post_req) == SpecOutcome::FileWrite(
            spec_file_name(post_req.path),
            post_req.body,
        ),
        spec_ok_with("application/octet-stream".spec_bytes(), post_req.body).body
            == post_req.body,
{
    broadcast use vstd::string::is_ascii_spec_bytes;

    reveal_strlit("/");
    reveal_strlit("/echo");
    reveal_strlit("/user-agent");
    reveal_strlit("/files");
    assert("/".is_ascii());
    assert("/echo".is_ascii());
    assert("/user-agent".is_ascii());
    assert("/files".is_ascii());
    let p = post_req.path;
    assert(p.len() >= 6) by {
        assert("/files".spec_bytes().len() == 6);
    }
    assert(p[1] == 'f' as u8) by {
        assert(p.subrange(0, 6)[1] == p[1]);
    }
    assert(p != "/".spec_bytes());
    if "/echo".spec_bytes().is_prefix_of(p) {
        assert(p.subrange(0, 5)[1] == p[1]);
        assert(p[1] == 'e' as u8);
    }
    if "/user-agent".spec_bytes().is_prefix_of(p) {
        assert(p.subrange(0, 11)[1] == p[1]);
        assert(p[1] == 'u' as u8);
    }
}

/// Extracts the suffix of `path` after the prefix `pre`, or nothing.
fn path_suffix(path: &[u8], pre: &str) -> (r: Vec<u8>)
    ensures
        r@ == (if pre.spec_bytes().is_prefix_of(path@) {
            path@.skip(pre.spec_bytes().len() as int)
        } else {
            Seq::<u8>::empty()
        }),
{
    let pre_bytes = pre.as_bytes();
    if bytes_starts_with(path, pre_bytes) {
        let r = slice_to_vec(slice_subrange(path, pre_bytes.len(), path.len()));
        proof {
            assert(r@ =~= path@.skip(pre.spec_bytes().len() as int));
        }
        r
    } else {
        let r: Vec<u8> = Vec::new();
        proof {
            assert(r@ =~= Seq::<u8>::empty());
        }
        r
    }
}

/// Serves `/echo/<payload>`: the payload verbatim as `text/plain`, gzip
/// compressed when the request accepts it. Fails only when compression
/// itself fails.
pub fn echo_handler(path: &[u8], headers: &[Header]) -> (r: Result<Response, HandlerError>)
    ensures
        !spec_gzip_wanted(headers_view(headers@)) ==> (r matches Ok(resp) && resp@
            == spec_echo_plain(spec_echo_payload(path@))),
        spec_gzip_wanted(headers_view(headers@)) ==> (r matches Ok(resp) ==> resp@
            == spec_echo_gzip(spec_echo_payload(path@))),
{
    let payload = path_suffix(path, "/echo/");
    let gzip_wanted = match get_header_value(headers, "Accept-Encoding") {
        Some(v) => bytes_contains(v.as_slice(), "gzip".as_bytes()),
        None => false,
    };
    if gzip_wanted {
        match gzip_compress(payload.as_slice()) {
            Some(compressed) => {
                let resp = Response::ok().with_content_encoding("gzip").with_content_type(
                    "text/plain",
                ).with_body(compressed);
                proof {
                    assert(resp@ =~= spec_echo_gzip(spec_echo_payload(path@)));
                }
                Ok(resp)
            },
            None => Err(HandlerError),
        }
    } else {
        let resp = Response::ok().with_content_type("text/plain").with_body(payload);
        proof {
            assert(resp@ =~= spec_echo_plain(spec_echo_payload(path@)));
        }
        Ok(resp)
    }
}

/// Serves `/user-agent`: reflects the `User-Agent` header, or 400.
pub fn user_agent_handler(headers: &[Header]) -> (r: Response)
    ensures
        r@ == spec_user_agent(headers_view(headers@)),
{
    match get_header_value(headers, "User-Agent") {
        Some(user_agent) => {
            let r = Response::ok().with_content_type("text/plain").with_body(user_agent);
            proof {
                assert(r@ =~= spec_user_agent(headers_view(headers@)));
            }
            r
        },
        None => {
            let r = Response::bad_request().with_body(
                crate::wire::str_to_bytes("User-Agent header not found"),
            );
            proof {
                assert(r@ =~= spec_user_agent(headers_view(headers@)));
            }
            r
        },
    }
}

/// The response to a completed file read: the contents, or a 404 when
/// the file could not be read.
pub fn file_read_response(content: Option<Vec<u8>>) -> (r: Response)
    ensures
        match content {
            Option::Some(c) => r@ == spec_ok_with("application/octet-stream".spec_bytes(), c@),
            Option::None => r@ == spec_with_len(
                404,
                "Not Found".spec_bytes(),
                "File not found".spec_bytes(),
            ),
        },
{
    match content {
        Some(c) => {
            let r = Response::ok().with_content_type("application/octet-stream").with_body(c);
            proof {
                let ghost cv = content->0@;
                assert(r@ =~= spec_ok_with("application/octet-stream".spec_bytes(), cv));
            }
            r
        },
        None => {
            let r = Response::not_found().with_body(crate::wire::str_to_bytes("File not found"));
            proof {
                assert(r@ =~= spec_with_len(
                    404,
                    "Not Found".spec_bytes(),
                    "File not found".spec_bytes(),
                ));
            }
            r
        },
    }
}

/// The response to a completed file write: 201, or a 500 on failure.
pub fn file_write_response(ok: bool) -> (r: Response)
    ensures
        ok ==> r@ == spec_with_len(
            201,
            "Created".spec_bytes(),
            "File created".spec_bytes(),
        ),
        !ok ==> r@ == spec_with_len(
            500,
            "Internal Server Error".spec_bytes(),
            "Failed to create file".spec_bytes(),
        ),
{
    if ok {
        let r = Response::created().with_body(crate::wire::str_to_bytes("File created"));
        proof {
            assert(r@ =~= spec_with_len(201, "Created".spec_bytes(), "File created".spec_bytes()));
        }
        r
    } else {
        let r = Response::internal_server_error().with_body(
            crate::wire::str_to_bytes("Failed to create file"),
        );
        proof {
            assert(r@ =~= spec_with_len(
                500,
                "Internal Server Error".spec_bytes(),
                "Failed to create file".spec_bytes(),
            ));
        }
        r
    }
}

/// Decides the `/files/<name>` route: rejects an empty name, reads on
/// `GET`, writes the request body on `POST`, and refuses other methods.
pub fn files_handler(path: &[u8], method: Method, body: &[u8]) -> (r: RouteOutcome)
    ensures
        r@ == (if spec_file_name(path@).len() == 0 {
            SpecOutcome::Reply(
                spec_with_len(
                    400,
                    "Bad Request".spec_bytes(),
                    "File name is required".spec_bytes(),
                ),
            )
        } else {
            match method {
                Method::Get => SpecOutcome::FileRead(spec_file_name(path@)),
                Method::Post => SpecOutcome::FileWrite(spec_file_name(path@), body@),
                Method::Other => SpecOutcome::Reply(
                    spec_with_len(405, "Method Not Allowed".spec_bytes(), Seq::empty()),
                ),
            }
        }),
{
    let file_name = path_suffix(path, "/files/");
    if file_name.len() == 0 {
        let resp = Response::bad_request().with_body(
            crate::wire::str_to_bytes("File name is required"),
        );
        proof {
            assert(resp@ =~= spec_with_len(
                400,
                "Bad Request".spec_bytes(),
                "File name is required".spec_bytes(),
            ));
        }
        return RouteOutcome::Reply(resp);
    }
    match method {
        Method::Get => RouteOutcome::FileRead(file_name),
        Method::Post => RouteOutcome::FileWrite(file_name, slice_to_vec(body)),
        Method::Other => {
            let resp = Response::method_not_allowed().with_body(Vec::new());
            proof {
                assert(resp@ =~= spec_with_len(
                    405,
                    "Method Not Allowed".spec_bytes(),
                    Seq::empty(),
                ));
            }
            RouteOutcome::Reply(resp)
        },
    }
}

/// Routes a request to exactly one handler. Fails only where the echo
/// handler's compression fails; every other route always succeeds.
pub fn handle_request(req: &Request) -> (r: Result<RouteOutcome, HandlerError>)
    ensures
        !spec_gzip_route(req@) ==> r is Ok,
        r matches Ok(out) ==> out@ == spec_route(req@),
{
    let path = req.path.as_slice();
    if bytes_eq(path, "/".as_bytes()) {
        let resp = Response::ok().with_body(Vec::new());
        proof {
            assert(resp@ =~= spec_with_len(200, "OK".spec_bytes(), Seq::empty()));
        }
        Ok(RouteOutcome::Reply(resp))
    } else if bytes_starts_with(path, "/echo".as_bytes()) {
        match echo_handler(path, req.headers.as_slice()) {
            Ok(resp) => Ok(RouteOutcome::Reply(resp)),
            Err(e) => Err(e),
        }
    } else if bytes_starts_with(path, "/user-agent".as_bytes()) {
        Ok(RouteOutcome::Reply(user_agent_handler(req.headers.as_slice())))
    } else if bytes_starts_with(path, "/files".as_bytes()) {
        Ok(files_handler(path, req.method, req.body.as_slice()))
    } else {
        let resp = Response::not_found().with_body(crate::wire::str_to_bytes("Invalid path"));
        proof {
            assert(resp@ =~= spec_with_len(
                404,
                "Not Found".spec_bytes(),
                "Invalid path".spec_bytes(),
            ));
        }
        Ok(RouteOutcome::Reply(resp))
    }
}

} // verus!
