//! HTTP response values and their serialization to wire format.
//!
//! A `Response` is built fluently (status constructor, then `with_*`
//! methods); header order is insertion order and is reproduced verbatim
//! by `as_bytes`, which always frames the body behind a blank line.

use vstd::prelude::*;
use vstd::string::StringSliceAdditionalSpecFns;
use crate::wire::{append_slice, append_str, dec_digits, str_to_bytes, u64_to_dec};

verus! {

/// One response header: a name and a value, kept as raw bytes.
pub struct Header {
    pub name: Vec<u8>,
    pub value: Vec<u8>,
}

impl Header {
    pub fn new(name: Vec<u8>, value: Vec<u8>) -> (r: Header)
        ensures
            r.name@ == name@,
            r.value@ == value@,
    {
        Header { name, value }
    }
}

/// The mathematical value of a `Response`.
#[verifier::ext_equal]
pub ghost struct SpecResponse {
    pub code: u16,
    pub reason: Seq<u8>,
    pub headers: Seq<(Seq<u8>, Seq<u8>)>,
    pub body: Seq<u8>,
}

/// An HTTP response: status line, ordered headers, and body.
pub struct Response {
    code: u16,
    reason: Vec<u8>,
    headers: Vec<Header>,
    body: Vec<u8>,
}

impl View for Response {
    type V = SpecResponse;

    closed spec fn view(&self) -> SpecResponse {
        SpecResponse {
            code: self.code,
            reason: self.reason@,
            headers: self.headers@.map_values(|h: Header| (h.name@, h.value@)),
            body: self.body@,
        }
    }
}

/// The wire form of one header line: `name: value\r\n`.
pub open spec fn render_header(h: (Seq<u8>, Seq<u8>)) -> Seq<u8> {
    h.0 + ": ".spec_bytes() + h.1 + "\r\n".spec_bytes()
}

/// The wire form of a header block, in order.
pub open spec fn render_headers(hs: Seq<(Seq<u8>, Seq<u8>)>) -> Seq<u8>
    decreases hs.len(),
{
    if hs.len() == 0 {
        Seq::empty()
    } else {
        render_header(hs[0]) + render_headers(hs.drop_first())
    }
}

/// The full wire form: status line, headers, blank line, body.
pub open spec fn render(r: SpecResponse) -> Seq<u8> {
    "HTTP/1.1 ".spec_bytes() + dec_digits(r.code as nat) + " ".spec_bytes() + r.reason
        + "\r\n".spec_bytes() + render_headers(r.headers) + "\r\n".spec_bytes() + r.body
}

/// Appending one header to a block appends one line to its wire form.
pub proof fn lemma_render_headers_snoc(hs: Seq<(Seq<u8>, Seq<u8>)>, h: (Seq<u8>, Seq<u8>))
    ensures
        render_headers(hs.push(h)) == render_headers(hs) + render_header(h),
    decreases hs.len(),
{
    if hs.len() == 0 {
        assert(hs.push(h)[0] == h);
        assert(hs.push(h).drop_first() =~= Seq::<(Seq<u8>, Seq<u8>)>::empty());
        assert(render_headers(hs.push(h)) == render_header(h) + render_headers(
            Seq::<(Seq<u8>, Seq<u8>)>::empty(),
        ));
        assert(render_headers(hs.push(h)) =~= render_headers(hs) + render_header(h));
    } else {
        assert(hs.push(h).drop_first() =~= hs.drop_first().push(h));
        lemma_render_headers_snoc(hs.drop_first(), h);
        assert(hs.push(h)[0] == hs[0]);
        assert(render_headers(hs.push(h)) =~= render_headers(hs) + render_header(h));
    }
}

impl Response {
    /// A response with the given status code and reason phrase, no
    /// headers and an empty body.
    pub fn new(code: u16, reason: &str) -> (r: Response)
        ensures
            r@.code == code,
            r@.reason == reason.spec_bytes(),
            r@.headers == Seq::<(Seq<u8>, Seq<u8>)>::empty(),
            r@.body == Seq::<u8>::empty(),
    {
        let r = Response { code, reason: str_to_bytes(reason), headers: Vec::new(), body: Vec::new() };
        proof {
            assert(r@.headers =~= Seq::<(Seq<u8>, Seq<u8>)>::empty());
        }
        r
    }

    pub fn ok() -> (r: Response)
        ensures
            r@.code == 200,
            r@.reason == "OK".spec_bytes(),
            r@.headers == Seq::<(Seq<u8>, Seq<u8>)>::empty(),
            r@.body == Seq::<u8>::empty(),
    {
        Self::new(200, "OK")
    }

    pub fn created() -> (r: Response)
        ensures
            r@.code == 201,
            r@.reason == "Created".spec_bytes(),
            r@.headers == Seq::<(Seq<u8>, Seq<u8>)>::empty(),
            r@.body == Seq::<u8>::empty(),
    {
        Self::new(201, "Created")
    }

    pub fn bad_request() -> (r: Response)
        ensures
            r@.code == 400,
            r@.reason == "Bad Request".spec_bytes(),
            r@.headers == Seq::<(Seq<u8>, Seq<u8>)>::empty(),
            r@.body == Seq::<u8>::empty(),
    {
        Self::new(400, "Bad Request")
    }

    pub fn not_found() -> (r: Response)
        ensures
            r@.code == 404,
            r@.reason == "Not Found".spec_bytes(),
            r@.headers == Seq::<(Seq<u8>, Seq<u8>)>::empty(),
            r@.body == Seq::<u8>::empty(),
    {
        Self::new(404, "Not Found")
    }

    pub fn method_not_allowed() -> (r: Response)
        ensures
            r@.code == 405,
            r@.reason == "Method Not Allowed".spec_bytes(),
            r@.headers == Seq::<(Seq<u8>, Seq<u8>)>::empty(),
            r@.body == Seq::<u8>::empty(),
    {
        Self::new(405, "Method Not Allowed")
    }

    pub fn internal_server_error() -> (r: Response)
        ensures
            r@.code == 500,
            r@.reason == "Internal Server Error".spec_bytes(),
            r@.headers == Seq::<(Seq<u8>, Seq<u8>)>::empty(),
            r@.body == Seq::<u8>::empty(),
    {
        Self::new(500, "Internal Server Error")
    }

    /// Appends one header; everything else is unchanged.
    fn with_header(self, name: &str, value: Vec<u8>) -> (r: Response)
        ensures
            r@.code == self@.code,
            r@.reason == self@.reason,
            r@.body == self@.body,
            r@.headers == self@.headers.push((name.spec_bytes(), value@)),
    {
        let ghost old_self = self@;
        let mut headers = self.headers;
        headers.push(Header::new(str_to_bytes(name), value));
        let r = Response { code: self.code, reason: self.reason, headers, body: self.body };
        proof {
            assert(r@.headers =~= old_self.headers.push((name.spec_bytes(), value@)));
        }
        r
    }

    /// Appends a `Content-Type` header.
    pub fn with_content_type(self, content_type: &str) -> (r: Response)
        ensures
            r@.code == self@.code,
            r@.reason == self@.reason,
            r@.body == self@.body,
            r@.headers == self@.headers.push(
                ("Content-Type".spec_bytes(), content_type.spec_bytes()),
            ),
    {
        self.with_header("Content-Type", str_to_bytes(content_type))
    }

    /// Appends a `Content-Encoding` header.
    pub fn with_content_encoding(self, encoding: &str) -> (r: Response)
        ensures
            r@.code == self@.code,
            r@.reason == self@.reason,
            r@.body == self@.body,
            r@.headers == self@.headers.push(
                ("Content-Encoding".spec_bytes(), encoding.spec_bytes()),
            ),
    {
        self.with_header("Content-Encoding", str_to_bytes(encoding))
    }

    /// Sets the body and appends a `Content-Length` header holding the
    /// body's byte length in decimal.
    pub fn with_body(self, body: Vec<u8>) -> (r: Response)
        ensures
            r@.code == self@.code,
            r@.reason == self@.reason,
            r@.body == body@,
            r@.headers == self@.headers.push(
                ("Content-Length".spec_bytes(), dec_digits(body@.len())),
            ),
    {
        let len: u64 = body.len() as u64;
        let r = Response { code: self.code, reason: self.reason, headers: self.headers, body };
        r.with_header("Content-Length", u64_to_dec(len))
    }

    /// Appends a `Connection: close` header.
    pub fn connection_close(self) -> (r: Response)
        ensures
            r@.code == self@.code,
            r@.reason == self@.reason,
            r@.body == self@.body,
            r@.headers == self@.headers.push(
                ("Connection".spec_bytes(), "close".spec_bytes()),
            ),
    {
        self.with_header("Connection", str_to_bytes("close"))
    }

    /// Serializes the response to wire format.
    pub fn as_bytes(&self) -> (r: Vec<u8>)
        ensures
            r@ == render(self@),
    {
        let mut out: Vec<u8> = Vec::new();
        append_str(&mut out, "HTTP/1.1 ");
        let mut code_bytes = u64_to_dec(self.code as u64);
        out.append(&mut code_bytes);
        append_str(&mut out, " ");
        append_slice(&mut out, self.reason.as_slice());
        append_str(&mut out, "\r\n");
        let ghost head = "HTTP/1.1 ".spec_bytes() + dec_digits(self@.code as nat)
            + " ".spec_bytes() + self@.reason + "\r\n".spec_bytes();
        proof {
            assert(out@ =~= head);
        }
        let n = self.headers.len();
        let mut i: usize = 0;
        while i < n
            invariant
                0 <= i <= n,
                n == self.headers@.len(),
                out@ == head + render_headers(self@.headers.take(i as int)),
            decreases n - i,
        {
            let h = &self.headers[i];
            append_slice(&mut out, h.name.as_slice());
            append_str(&mut out, ": ");
            append_slice(&mut out, h.value.as_slice());
            append_str(&mut out, "\r\n");
            proof {
                assert(self@.headers.take(i + 1) =~= self@.headers.take(i as int).push(
                    self@.headers[i as int],
                ));
                lemma_render_headers_snoc(self@.headers.take(i as int), self@.headers[i as int]);
                assert(out@ =~= head + render_headers(self@.headers.take(i + 1)));
            }
            i += 1;
        }
        proof {
            assert(self@.headers.take(n as int) =~= self@.headers);
        }
        append_str(&mut out, "\r\n");
        append_slice(&mut out, self.body.as_slice());
        proof {
            assert(out@ =~= render(self@));
        }
        out
    }
}

} // verus!
