//! The per-connection protocol state machine.
//!
//! One accepted socket owns one `ConnState`. The caller reads from the
//! socket (under its inactivity timeout) and feeds what happened to
//! `conn_step`, which accumulates bytes, parses, routes, and says what to
//! do next: keep reading, write a reply (and possibly close), perform a
//! file action, or close silently. File actions are completed with
//! `file_read_reply` / `file_write_reply`, which render the final bytes.
//!
//! A `Connection: close` header turns keep-alive off for the rest of the
//! connection; a timeout or transport failure closes it with no reply. A
//! buffer that parses as malformed is dropped whole and answered with a
//! 400; the connection itself stays up under the usual keep-alive rule.

use vstd::prelude::*;
use vstd::string::StringSliceAdditionalSpecFns;
use crate::request::{
    get_header_value, parse_request, spec_header_lookup, spec_parse, ParseResult, SpecParse,
};
use crate::response::{render, Response, SpecResponse};
use crate::routes::{
    handle_request, file_read_response, file_write_response, spec_with_len, spec_gzip_route,
    spec_ok_with, spec_route, RouteOutcome, SpecOutcome,
};
use crate::wire::{bytes_eq_nocase, eq_nocase, str_to_bytes};

verus! {

/// Per-connection state: the keep-alive flag and the bytes read so far
/// that no complete request head has consumed yet.
pub struct ConnState {
    pub keep_alive: bool,
    pub buf: Vec<u8>,
}

/// The mathematical value of a connection's state.
#[verifier::ext_equal]
pub ghost struct SpecConn {
    pub keep_alive: bool,
    pub buf: Seq<u8>,
}

impl View for ConnState {
    type V = SpecConn;

    open spec fn view(&self) -> SpecConn {
        SpecConn { keep_alive: self.keep_alive, buf: self.buf@ }
    }
}

/// What the caller observed on the socket.
pub enum ConnEvent {
    /// Bytes arrived (possibly none, e.g. at end of stream).
    Bytes(Vec<u8>),
    /// Nothing arrived within the inactivity window.
    TimedOut,
    /// Reading failed at the transport layer.
    Failed,
}

/// The mathematical value of an observed event.
pub ghost enum SpecEvent {
    Bytes(Seq<u8>),
    TimedOut,
    Failed,
}

impl View for ConnEvent {
    type V = SpecEvent;

    open spec fn view(&self) -> SpecEvent {
        match self {
            ConnEvent::Bytes(b) => SpecEvent::Bytes(b@),
            ConnEvent::TimedOut => SpecEvent::TimedOut,
            ConnEvent::Failed => SpecEvent::Failed,
        }
    }
}

/// What the connection loop must do next.
pub enum ConnStep {
    /// Read more bytes; the request head is still incomplete.
    KeepReading,
    /// Write `data`, then close the socket iff `close_after`.
    Reply { data: Vec<u8>, close_after: bool },
    /// Read the named file, reply with `file_read_reply`.
    FileRead { name: Vec<u8>, close_after: bool },
    /// Write `contents` to the named file, reply with `file_write_reply`.
    FileWrite { name: Vec<u8>, contents: Vec<u8>, close_after: bool },
    /// Close the socket without writing anything.
    Close,
}

/// The mathematical value of a step.
#[verifier::ext_equal]
pub ghost enum SpecStep {
    KeepReading,
    Reply { data: Seq<u8>, close_after: bool },
    FileRead { name: Seq<u8>, close_after: bool },
    FileWrite { name: Seq<u8>, contents: Seq<u8>, close_after: bool },
    Close,
}

impl View for ConnStep {
    type V = SpecStep;

    open spec fn view(&self) -> SpecStep {
        match self {
            ConnStep::KeepReading => SpecStep::KeepReading,
            ConnStep::Reply { data, close_after } => SpecStep::Reply {
                data: data@,
                close_after: *close_after,
            },
            ConnStep::FileRead { name, close_after } => SpecStep::FileRead {
                name: name@,
                close_after: *close_after,
            },
            ConnStep::FileWrite { name, contents, close_after } => SpecStep::FileWrite {
                name: name@,
                contents: contents@,
                close_after: *close_after,
            },
            ConnStep::Close => SpecStep::Close,
        }
    }
}

/// `r` with a `Connection: close` header appended, when `close` holds.
pub open spec fn with_close_if(r: SpecResponse, close: bool) -> SpecResponse {
    if close {
        SpecResponse {
            code: r.code,
            reason: r.reason,
            headers: r.headers.push(("Connection".spec_bytes(), "close".spec_bytes())),
            body: r.body,
        }
    } else {
        r
    }
}

/// Whether the request asked to close the connection: a `Connection`
/// header whose value is `close`, compared without regard to ASCII case.
pub open spec fn spec_conn_close(hs: Seq<(Seq<u8>, Seq<u8>)>) -> bool {
    match spec_header_lookup(hs, "Connection".spec_bytes()) {
        Option::Some(v) => eq_nocase(v, "close".spec_bytes()),
        Option::None => false,
    }
}

/// The reply to a request that could not be parsed.
pub open spec fn spec_malformed_response() -> SpecResponse {
    spec_with_len(400, "Bad Request".spec_bytes(), Seq::empty())
}

/// The reply when a handler fails; it carries no `Connection` header
/// even on a closing connection.
pub open spec fn spec_handler_failed_response() -> SpecResponse {
    spec_with_len(
        500,
        "Internal Server Error".spec_bytes(),
        "The server encountered an error and could not complete your request.".spec_bytes(),
    )
}

/// How one step of the connection machine relates the state before
/// (`pre`), the observed event, the state after (`post`), and the step
/// taken. A timeout or transport failure closes with nothing written. A
/// complete request is consumed whole (head and buffered body), turns
/// keep-alive off when it asks to, and is answered by its route; only a
/// gzip echo may instead degrade to the handler-failure reply.
pub open spec fn conn_post(pre: SpecConn, ev: SpecEvent, post: SpecConn, step: SpecStep) -> bool {
    match ev {
        SpecEvent::TimedOut => post == pre && step is Close,
        SpecEvent::Failed => post == pre && step is Close,
        SpecEvent::Bytes(b) => {
            let nb = pre.buf + b;
            match spec_parse(nb) {
                SpecParse::Incomplete => {
                    &&& post == SpecConn { keep_alive: pre.keep_alive, buf: nb }
                    &&& step is KeepReading
                },
                SpecParse::Malformed => {
                    &&& post == SpecConn { keep_alive: pre.keep_alive, buf: Seq::empty() }
                    &&& step == SpecStep::Reply {
                        data: render(with_close_if(spec_malformed_response(), !pre.keep_alive)),
                        close_after: !pre.keep_alive,
                    }
                },
                SpecParse::Complete { req, consumed } => {
                    let ka = pre.keep_alive && !spec_conn_close(req.headers);
                    &&& post == SpecConn { keep_alive: ka, buf: Seq::empty() }
                    &&& match spec_route(req) {
                        SpecOutcome::FileRead(name) => step == SpecStep::FileRead {
                            name,
                            close_after: !ka,
                        },
                        SpecOutcome::FileWrite(name, contents) => step == SpecStep::FileWrite {
                            name,
                            contents,
                            close_after: !ka,
                        },
                        SpecOutcome::Reply(sr) => {
                            ||| step == SpecStep::Reply {
                                data: render(with_close_if(sr, !ka)),
                                close_after: !ka,
                            }
                            ||| {
                                &&& spec_gzip_route(req)
                                &&& step == SpecStep::Reply {
                                    data: render(spec_handler_failed_response()),
                                    close_after: !ka,
                                }
                            }
                        },
                    }
                },
            }
        },
    }
}

/// The close header line on the wire equals the rendered pair.
proof fn lemma_close_header_line()
    ensures
        crate::response::render_header(("Connection".spec_bytes(), "close".spec_bytes()))
            == "Connection: close\r\n".spec_bytes(),
{
    broadcast use vstd::string::is_ascii_spec_bytes;

    reveal_strlit("Connection");
    reveal_strlit(": ");
    reveal_strlit("close");
    reveal_strlit("\r\n");
    reveal_strlit("Connection: close\r\n");
    assert("Connection".is_ascii());
    assert(": ".is_ascii());
    assert("close".is_ascii());
    assert("\r\n".is_ascii());
    assert("Connection: close\r\n".is_ascii());
    assert(crate::response::render_header(("Connection".spec_bytes(), "close".spec_bytes()))
        =~= "Connection: close\r\n".spec_bytes());
}

/// A reply built for a connection that must close carries the literal
/// `Connection: close` header line somewhere in its bytes.
pub proof fn lemma_close_reply_on_wire(sr: SpecResponse)
    ensures
        crate::wire::contains_seq(
            render(with_close_if(sr, true)),
            "Connection: close\r\n".spec_bytes(),
        ),
{
    let line = "Connection: close\r\n".spec_bytes();
    let closed = with_close_if(sr, true);
    crate::response::lemma_render_headers_snoc(
        sr.headers,
        ("Connection".spec_bytes(), "close".spec_bytes()),
    );
    lemma_close_header_line();
    let pre = "HTTP/1.1 ".spec_bytes() + crate::wire::dec_digits(sr.code as nat)
        + " ".spec_bytes() + sr.reason + "\r\n".spec_bytes() + crate::response::render_headers(
        sr.headers,
    );
    let post = "\r\n".spec_bytes() + sr.body;
    assert(render(closed) =~= pre + line + post);
    crate::wire::lemma_occurs_concat(pre, line, post);
}

/// Once a request has asked to close the connection, keep-alive stays
/// off, and every later step that writes anything closes afterwards,
/// whatever bytes still arrive.
pub proof fn lemma_close_is_sticky(pre: SpecConn, ev: SpecEvent, post: SpecConn, step: SpecStep)
    requires
        !pre.keep_alive,
        conn_post(pre, ev, post, step),
    ensures
        !post.keep_alive,
        step matches SpecStep::Reply { data, close_after } ==> close_after,
        step matches SpecStep::FileRead { name, close_after } ==> close_after,
        step matches SpecStep::FileWrite { name, contents, close_after } ==> close_after,
{
}

/// A connection that times out is closed with no reply written.
pub proof fn lemma_timeout_closes_silently(pre: SpecConn, post: SpecConn, step: SpecStep)
    requires
        conn_post(pre, SpecEvent::TimedOut, post, step),
    ensures
        step is Close,
        post == pre,
{
}

impl ConnState {
    /// A fresh connection: keep-alive, nothing buffered.
    pub fn new() -> (r: ConnState)
        ensures
            r@.keep_alive == true,
            r@.buf == Seq::<u8>::empty(),
    {
        ConnState { keep_alive: true, buf: Vec::new() }
    }
}

/// Advances the connection by one observed event.
pub fn conn_step(state: &mut ConnState, event: ConnEvent) -> (r: ConnStep)
    ensures
        conn_post(old(state)@, event@, final(state)@, r@),
{
    match event {
        ConnEvent::TimedOut => ConnStep::Close,
        ConnEvent::Failed => ConnStep::Close,
        ConnEvent::Bytes(b) => {
            let mut incoming = b;
            state.buf.append(&mut incoming);
            match parse_request(state.buf.as_slice()) {
                ParseResult::Incomplete => ConnStep::KeepReading,
                ParseResult::Malformed => {
                    state.buf = Vec::new();
                    let close_after = !state.keep_alive;
                    let resp = Response::bad_request().with_body(Vec::new());
                    proof {
                        assert(resp@ =~= spec_malformed_response());
                    }
                    let resp = if close_after {
                        let r2 = resp.connection_close();
                        proof {
                            assert(r2@ =~= with_close_if(spec_malformed_response(), close_after));
                        }
                        r2
                    } else {
                        resp
                    };
                    ConnStep::Reply { data: resp.as_bytes(), close_after }
                },
                ParseResult::Complete(req, _consumed) => {
                    state.buf = Vec::new();
                    let close_requested = match get_header_value(
                        req.headers.as_slice(),
                        "Connection",
                    ) {
                        Some(v) => bytes_eq_nocase(v.as_slice(), "close".as_bytes()),
                        None => false,
                    };
                    if close_requested {
                        state.keep_alive = false;
                    }
                    proof {
                        assert(close_requested == spec_conn_close(req@.headers));
                    }
                    let close_after = !state.keep_alive;
                    match handle_request(&req) {
                        Err(_) => {
                            let resp = Response::internal_server_error().with_body(
                                str_to_bytes(
                                    "The server encountered an error and could not complete your request.",
                                ),
                            );
                            proof {
                                assert(resp@ =~= spec_handler_failed_response());
                            }
                            ConnStep::Reply { data: resp.as_bytes(), close_after }
                        },
                        Ok(RouteOutcome::Reply(resp)) => {
                            let ghost sr = resp@;
                            let resp = if close_after {
                                let r2 = resp.connection_close();
                                proof {
                                    assert(r2@ =~= with_close_if(sr, close_after));
                                }
                                r2
                            } else {
                                resp
                            };
                            ConnStep::Reply { data: resp.as_bytes(), close_after }
                        },
                        Ok(RouteOutcome::FileRead(name)) => ConnStep::FileRead {
                            name,
                            close_after,
                        },
                        Ok(RouteOutcome::FileWrite(name, contents)) => ConnStep::FileWrite {
                            name,
                            contents,
                            close_after,
                        },
                    }
                },
            }
        },
    }
}

/// Renders the reply to a completed file read: the contents as
/// `application/octet-stream`, or a 404 when the read failed; with a
/// `Connection: close` header when `close` holds.
pub fn file_read_reply(content: Option<Vec<u8>>, close: bool) -> (r: Vec<u8>)
    ensures
        (content matches Some(c) ==> r@ == render(
            with_close_if(spec_ok_with("application/octet-stream".spec_bytes(), c@), close),
        )),
        (content is None ==> r@ == render(
            with_close_if(
                spec_with_len(404, "Not Found".spec_bytes(), "File not found".spec_bytes()),
                close,
            ),
        )),
{
    let resp = file_read_response(content);
    let resp = if close {
        resp.connection_close()
    } else {
        resp
    };
    let r = resp.as_bytes();
    proof {
        assert(r@ =~= render(resp@));
    }
    r
}

/// Renders the reply to a completed file write: 201, or a 500 when the
/// write failed; with a `Connection: close` header when `close` holds.
pub fn file_write_reply(ok: bool, close: bool) -> (r: Vec<u8>)
    ensures
        ok ==> r@ == render(
            with_close_if(
                spec_with_len(201, "Created".spec_bytes(), "File created".spec_bytes()),
                close,
            ),
        ),
        !ok ==> r@ == render(
            with_close_if(
                spec_with_len(
                    500,
                    "Internal Server Error".spec_bytes(),
                    "Failed to create file".spec_bytes(),
                ),
                close,
            ),
        ),
{
    let resp = file_write_response(ok);
    let resp = if close {
        resp.connection_close()
    } else {
        resp
    };
    resp.as_bytes()
}

} // verus!
