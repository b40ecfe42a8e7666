//! HTTP/1.1 request parsing over raw byte buffers.
//!
//! A buffer is a prefix of a request: parsing yields `Complete` (with the
//! structured request and the length of the parsed head), `Incomplete`
//! (the head's terminating blank line has not arrived yet), or
//! `Malformed`. The head is the request line and the header lines, each
//! ending in CRLF, terminated by an empty line; the body is every byte
//! already buffered after the terminator. The header count is bounded by
//! `MAX_HEADERS`; a request past that bound is rejected as malformed.

use vstd::prelude::*;
use vstd::slice::{slice_subrange, slice_to_vec};
use vstd::string::StringSliceAdditionalSpecFns;
use crate::response::Header;
use crate::wire::{bytes_eq, eq_nocase};

verus! {

/// The most headers a request may carry.
pub const MAX_HEADERS: usize = 64;

/// A request method. Methods other than `GET` and `POST` are accepted by
/// the parser and rejected, where it matters, by the router.
#[derive(Clone, Copy, PartialEq, Eq, Structural, Debug)]
pub enum Method {
    Get,
    Post,
    Other,
}

/// The mathematical value of a parsed request.
#[verifier::ext_equal]
pub ghost struct SpecRequest {
    pub method: Method,
    pub path: Seq<u8>,
    pub headers: Seq<(Seq<u8>, Seq<u8>)>,
    pub body: Seq<u8>,
}

/// A parsed request.
pub struct Request {
    pub method: Method,
    pub path: Vec<u8>,
    pub headers: Vec<Header>,
    pub body: Vec<u8>,
}

/// The pair view of a header sequence.
pub open spec fn headers_view(hs: Seq<Header>) -> Seq<(Seq<u8>, Seq<u8>)> {
    hs.map_values(|h: Header| (h.name@, h.value@))
}

impl View for Request {
    type V = SpecRequest;

    open spec fn view(&self) -> SpecRequest {
        SpecRequest {
            method: self.method,
            path: self.path@,
            headers: headers_view(self.headers@),
            body: self.body@,
        }
    }
}

/// What parsing a buffer yields.
pub ghost enum SpecParse {
    Complete { req: SpecRequest, consumed: int },
    Incomplete,
    Malformed,
}

/// What parsing a buffer yields, as exec data.
pub enum ParseResult {
    Complete(Request, usize),
    Incomplete,
    Malformed,
}

/// Whether the four-byte head terminator `\r\n\r\n` sits at `i`.
pub open spec fn is_term_at(s: Seq<u8>, i: int) -> bool {
    &&& 0 <= i
    &&& i + 4 <= s.len()
    &&& s[i] == 13
    &&& s[i + 1] == 10
    &&& s[i + 2] == 13
    &&& s[i + 3] == 10
}

/// The first position at or after `lo` where the head terminator sits.
pub open spec fn find_term(s: Seq<u8>, lo: int) -> Option<int>
    decreases s.len() - lo,
{
    if lo < 0 || lo + 4 > s.len() {
        None
    } else if is_term_at(s, lo) {
        Some(lo)
    } else {
        find_term(s, lo + 1)
    }
}

/// The first position in `[lo, hi)` where a full CRLF sits.
pub open spec fn find_crlf_from(s: Seq<u8>, lo: int, hi: int) -> Option<int>
    decreases hi - lo,
{
    if lo < 0 || hi > s.len() || lo + 2 > hi {
        None
    } else if s[lo] == 13 && s[lo + 1] == 10 {
        Some(lo)
    } else {
        find_crlf_from(s, lo + 1, hi)
    }
}

/// The first position in `[lo, hi)` holding the byte `b`.
pub open spec fn find_byte_from(s: Seq<u8>, b: u8, lo: int, hi: int) -> Option<int>
    decreases hi - lo,
{
    if lo < 0 || hi > s.len() || lo >= hi {
        None
    } else if s[lo] == b {
        Some(lo)
    } else {
        find_byte_from(s, b, lo + 1, hi)
    }
}

/// Optional whitespace around a header value: space or horizontal tab.
pub open spec fn is_ows(b: u8) -> bool {
    b == 32 || b == 9
}

/// The first position in `[lo, hi)` past any leading whitespace.
pub open spec fn skip_ows(s: Seq<u8>, lo: int, hi: int) -> int
    decreases hi - lo,
{
    if !(0 <= lo && lo < hi && hi <= s.len()) {
        lo
    } else if !is_ows(s[lo]) {
        lo
    } else {
        skip_ows(s, lo + 1, hi)
    }
}

/// The end of `[lo, hi)` with any trailing whitespace removed.
pub open spec fn trim_ows_end(s: Seq<u8>, lo: int, hi: int) -> int
    decreases hi - lo,
{
    if !(0 <= lo && lo < hi && hi <= s.len()) {
        hi
    } else if !is_ows(s[hi - 1]) {
        hi
    } else {
        trim_ows_end(s, lo, hi - 1)
    }
}

/// The method a token names.
pub open spec fn method_of(tok: Seq<u8>) -> Method {
    if tok == "GET".spec_bytes() {
        Method::Get
    } else if tok == "POST".spec_bytes() {
        Method::Post
    } else {
        Method::Other
    }
}

/// Parses the request line `method SP path SP version` spanning
/// `[lo, hi)`. The method, path, and version must all be non-empty; the
/// version is otherwise not inspected.
pub open spec fn parse_request_line(s: Seq<u8>, lo: int, hi: int) -> Option<(Method, Seq<u8>)> {
    match find_byte_from(s, 32, lo, hi) {
        Option::None => Option::None,
        Option::Some(sp1) => match find_byte_from(s, 32, sp1 + 1, hi) {
            Option::None => Option::None,
            Option::Some(sp2) => {
                if sp1 == lo || sp2 == sp1 + 1 || sp2 + 1 == hi {
                    Option::None
                } else {
                    Option::Some((method_of(s.subrange(lo, sp1)), s.subrange(sp1 + 1, sp2)))
                }
            },
        },
    }
}

/// Parses one header line `name: value` spanning `[lo, hi)`: the name is
/// the non-empty run before the first colon, the value is the rest with
/// surrounding whitespace dropped.
pub open spec fn parse_header_line(s: Seq<u8>, lo: int, hi: int) -> Option<(Seq<u8>, Seq<u8>)> {
    match find_byte_from(s, 58, lo, hi) {
        Option::None => Option::None,
        Option::Some(c) => {
            if c == lo {
                Option::None
            } else {
                let a = skip_ows(s, c + 1, hi);
                let b = trim_ows_end(s, a, hi);
                Option::Some((s.subrange(lo, c), s.subrange(a, b)))
            }
        },
    }
}

/// Parses the CRLF-terminated header lines spanning `[lo, hi)`, in order.
pub open spec fn parse_header_block(s: Seq<u8>, lo: int, hi: int) -> Option<
    Seq<(Seq<u8>, Seq<u8>)>,
>
    decreases hi - lo,
{
    if lo == hi {
        Option::Some(Seq::empty())
    } else if !(0 <= lo && lo < hi && hi <= s.len()) {
        Option::None
    } else {
        match find_crlf_from(s, lo, hi) {
            Option::None => Option::None,
            Option::Some(e) => {
                if e < lo || e + 2 > hi {
                    Option::None
                } else {
                    match parse_header_line(s, lo, e) {
                        Option::None => Option::None,
                        Option::Some(h) => match parse_header_block(s, e + 2, hi) {
                            Option::None => Option::None,
                            Option::Some(rest) => Option::Some(seq![h] + rest),
                        },
                    }
                }
            },
        }
    }
}

/// Parsing a whole buffer: incomplete until the head terminator has
/// arrived; then the head must parse and carry at most `MAX_HEADERS`
/// headers, and the body is everything buffered past the terminator.
pub open spec fn spec_parse(s: Seq<u8>) -> SpecParse {
    match find_term(s, 0) {
        Option::None => SpecParse::Incomplete,
        Option::Some(t) => match find_crlf_from(s, 0, t + 2) {
            Option::None => SpecParse::Malformed,
            Option::Some(e1) => match parse_request_line(s, 0, e1) {
                Option::None => SpecParse::Malformed,
                Option::Some(mp) => match parse_header_block(s, e1 + 2, t + 2) {
                    Option::None => SpecParse::Malformed,
                    Option::Some(hdrs) => {
                        if hdrs.len() > MAX_HEADERS {
                            SpecParse::Malformed
                        } else {
                            SpecParse::Complete {
                                req: SpecRequest {
                                    method: mp.0,
                                    path: mp.1,
                                    headers: hdrs,
                                    body: s.subrange(t + 4, s.len() as int),
                                },
                                consumed: t + 4,
                            }
                        }
                    },
                },
            },
        },
    }
}

/// Finds the head terminator, matching `find_term`.
fn find_term_exec(s: &[u8]) -> (r: Option<usize>)
    ensures
        match r {
            Option::Some(t) => find_term(s@, 0) == Option::Some(t as int) && t + 4 <= s@.len(),
            Option::None => find_term(s@, 0) is None,
        },
{
    let n: usize = s.len();
    if n < 4 {
        return None;
    }
    let mut i: usize = 0;
    while i <= n - 4
        invariant
            0 <= i <= n - 3,
            4 <= n == s@.len(),
            find_term(s@, 0) == find_term(s@, i as int),
        decreases n - i,
    {
        if s[i] == 13 && s[i + 1] == 10 && s[i + 2] == 13 && s[i + 3] == 10 {
            proof {
                assert(is_term_at(s@, i as int));
            }
            return Some(i);
        }
        proof {
            assert(!is_term_at(s@, i as int));
        }
        i += 1;
    }
    None
}

/// Finds the first CRLF in `[lo, hi)`, matching `find_crlf_from`.
fn find_crlf_exec(s: &[u8], lo: usize, hi: usize) -> (r: Option<usize>)
    requires
        lo <= hi <= s@.len(),
    ensures
        match r {
            Option::Some(e) => find_crlf_from(s@, lo as int, hi as int) == Option::Some(e as int)
                && lo <= e && e + 2 <= hi,
            Option::None => find_crlf_from(s@, lo as int, hi as int) is None,
        },
{
    if hi - lo < 2 {
        return None;
    }
    let mut i: usize = lo;
    while i <= hi - 2
        invariant
            lo <= i <= hi - 1,
            lo + 2 <= hi <= s@.len(),
            find_crlf_from(s@, lo as int, hi as int) == find_crlf_from(s@, i as int, hi as int),
        decreases hi - i,
    {
        if s[i] == 13 && s[i + 1] == 10 {
            return Some(i);
        }
        i += 1;
    }
    None
}

/// Finds the first `b` in `[lo, hi)`, matching `find_byte_from`.
fn find_byte_exec(s: &[u8], b: u8, lo: usize, hi: usize) -> (r: Option<usize>)
    requires
        lo <= hi <= s@.len(),
    ensures
        match r {
            Option::Some(c) => find_byte_from(s@, b, lo as int, hi as int) == Option::Some(
                c as int,
            ) && lo <= c && c < hi,
            Option::None => find_byte_from(s@, b, lo as int, hi as int) is None,
        },
{
    let mut i: usize = lo;
    while i < hi
        invariant
            lo <= i <= hi <= s@.len(),
            find_byte_from(s@, b, lo as int, hi as int) == find_byte_from(
                s@,
                b,
                i as int,
                hi as int,
            ),
        decreases hi - i,
    {
        if s[i] == b {
            return Some(i);
        }
        i += 1;
    }
    None
}

/// Reads the method named by `[lo, hi)` of `s`, matching `method_of`.
fn method_exec(s: &[u8], lo: usize, hi: usize) -> (r: Method)
    requires
        lo <= hi <= s@.len(),
    ensures
        r == method_of(s@.subrange(lo as int, hi as int)),
{
    let tok = slice_subrange(s, lo, hi);
    if bytes_eq(tok, "GET".as_bytes()) {
        Method::Get
    } else if bytes_eq(tok, "POST".as_bytes()) {
        Method::Post
    } else {
        Method::Other
    }
}

/// Parses a buffered prefix of a request, matching `spec_parse`.
pub fn parse_request(buf: &[u8]) -> (r: ParseResult)
    ensures
        (r is Incomplete) == (spec_parse(buf@) is Incomplete),
        (r is Malformed) == (spec_parse(buf@) is Malformed),
        (r matches ParseResult::Complete(req, n) ==> spec_parse(buf@) == (SpecParse::Complete {
            req: req@,
            consumed: n as int,
        })),
{
    let n: usize = buf.len();
    let t = match find_term_exec(buf) {
        None => {
            return ParseResult::Incomplete;
        },
        Some(t) => t,
    };
    proof {
        assert(t + 4 <= n);
    }
    let hi = t + 2;
    let e1 = match find_crlf_exec(buf, 0, hi) {
        None => {
            return ParseResult::Malformed;
        },
        Some(e) => e,
    };
    let sp1 = match find_byte_exec(buf, 32, 0, e1) {
        None => {
            return ParseResult::Malformed;
        },
        Some(p) => p,
    };
    let sp2 = match find_byte_exec(buf, 32, sp1 + 1, e1) {
        None => {
            return ParseResult::Malformed;
        },
        Some(p) => p,
    };
    if sp1 == 0 || sp2 == sp1 + 1 || sp2 + 1 == e1 {
        return ParseResult::Malformed;
    }
    let method = method_exec(buf, 0, sp1);
    let path = slice_to_vec(slice_subrange(buf, sp1 + 1, sp2));
    proof {
        assert(parse_request_line(buf@, 0, e1 as int) == Option::Some(
            (method, buf@.subrange(sp1 + 1, sp2 as int)),
        ));
    }
    let mut headers: Vec<Header> = Vec::new();
    let mut p: usize = e1 + 2;
    proof {
        assert(headers_view(headers@) =~= Seq::<(Seq<u8>, Seq<u8>)>::empty());
        match parse_header_block(buf@, p as int, hi as int) {
            Option::None => {},
            Option::Some(rest) => {
                assert(headers_view(headers@) + rest =~= rest);
            },
        }
    }
    while p < hi
        invariant
            e1 + 2 <= p <= hi,
            hi == t + 2,
            t + 4 <= n == buf@.len(),
            find_term(buf@, 0) == Option::Some(t as int),
            find_crlf_from(buf@, 0, hi as int) == Option::Some(e1 as int),
            parse_request_line(buf@, 0, e1 as int) is Some,
            parse_header_block(buf@, e1 + 2, hi as int) == (match parse_header_block(
                buf@,
                p as int,
                hi as int,
            ) {
                Option::None => Option::None::<Seq<(Seq<u8>, Seq<u8>)>>,
                Option::Some(rest) => Option::Some(headers_view(headers@) + rest),
            }),
        decreases hi - p,
    {
        let e = match find_crlf_exec(buf, p, hi) {
            None => {
                proof {
                    assert(parse_header_block(buf@, p as int, hi as int) is None);
                    assert(spec_parse(buf@) is Malformed);
                }
                return ParseResult::Malformed;
            },
            Some(e) => e,
        };
        let c = match find_byte_exec(buf, 58, p, e) {
            None => {
                proof {
                    assert(parse_header_line(buf@, p as int, e as int) is None);
                    assert(parse_header_block(buf@, p as int, hi as int) is None);
                    assert(spec_parse(buf@) is Malformed);
                }
                return ParseResult::Malformed;
            },
            Some(c) => c,
        };
        if c == p {
            proof {
                assert(parse_header_line(buf@, p as int, e as int) is None);
                assert(parse_header_block(buf@, p as int, hi as int) is None);
                assert(spec_parse(buf@) is Malformed);
            }
            return ParseResult::Malformed;
        }
        let name = slice_to_vec(slice_subrange(buf, p, c));
        let mut a: usize = c + 1;
        while a < e && (buf[a] == 32 || buf[a] == 9)
            invariant
                c + 1 <= a <= e <= buf@.len(),
                skip_ows(buf@, c + 1, e as int) == skip_ows(buf@, a as int, e as int),
            decreases e - a,
        {
            a += 1;
        }
        proof {
            assert(skip_ows(buf@, a as int, e as int) == a as int);
        }
        let mut b: usize = e;
        while b > a && (buf[b - 1] == 32 || buf[b - 1] == 9)
            invariant
                a <= b <= e <= buf@.len(),
                trim_ows_end(buf@, a as int, e as int) == trim_ows_end(buf@, a as int, b as int),
            decreases b,
        {
            b -= 1;
        }
        proof {
            assert(trim_ows_end(buf@, a as int, b as int) == b as int);
        }
        let value = slice_to_vec(slice_subrange(buf, a, b));
        let ghost prev = headers_view(headers@);
        let ghost line = (buf@.subrange(p as int, c as int), buf@.subrange(a as int, b as int));
        proof {
            assert(parse_header_line(buf@, p as int, e as int) == Option::Some(line));
        }
        headers.push(Header::new(name, value));
        proof {
            assert(headers_view(headers@) =~= prev.push(line));
            match parse_header_block(buf@, e + 2, hi as int) {
                Option::None => {
                    assert(parse_header_block(buf@, p as int, hi as int) is None);
                },
                Option::Some(rest) => {
                    assert(parse_header_block(buf@, p as int, hi as int) == Option::Some(
                        seq![line] + rest,
                    ));
                    assert(prev.push(line) + rest =~= prev + (seq![line] + rest));
                },
            }
        }
        p = e + 2;
    }
    proof {
        assert(parse_header_block(buf@, p as int, hi as int) == Option::Some(
            Seq::<(Seq<u8>, Seq<u8>)>::empty(),
        ));
        assert(headers_view(headers@) + Seq::<(Seq<u8>, Seq<u8>)>::empty() =~= headers_view(
            headers@,
        ));
    }
    proof {
        assert(parse_header_block(buf@, e1 + 2, hi as int) == Option::Some(
            headers_view(headers@),
        ));
    }
    if headers.len() > MAX_HEADERS {
        proof {
            assert(spec_parse(buf@) is Malformed);
        }
        return ParseResult::Malformed;
    }
    let body = slice_to_vec(slice_subrange(buf, t + 4, buf.len()));
    let req = Request { method, path, headers, body };
    proof {
        assert(spec_parse(buf@) == (SpecParse::Complete { req: req@, consumed: t + 4 as int }));
    }
    ParseResult::Complete(req, t + 4)
}

/// Looks up the first header whose name equals `name` up to ASCII case.
pub open spec fn spec_header_lookup(hs: Seq<(Seq<u8>, Seq<u8>)>, name: Seq<u8>) -> Option<Seq<u8>>
    decreases hs.len(),
{
    if hs.len() == 0 {
        Option::None
    } else if eq_nocase(hs[0].0, name) {
        Option::Some(hs[0].1)
    } else {
        spec_header_lookup(hs.drop_first(), name)
    }
}

/// The first value of the header named `key`, compared without regard to
/// ASCII case; `None` when no header has that name.
pub fn get_header_value(headers: &[Header], key: &str) -> (r: Option<Vec<u8>>)
    ensures
        match r {
            Option::Some(v) => spec_header_lookup(headers_view(headers@), key.spec_bytes())
                == Option::Some(v@),
            Option::None => spec_header_lookup(headers_view(headers@), key.spec_bytes()) is None,
        },
{
    let key_bytes = key.as_bytes();
    let n = headers.len();
    let mut i: usize = 0;
    proof {
        assert(headers_view(headers@).skip(0) =~= headers_view(headers@));
    }
    while i < n
        invariant
            0 <= i <= n == headers@.len(),
            key_bytes@ == key.spec_bytes(),
            spec_header_lookup(headers_view(headers@), key.spec_bytes()) == spec_header_lookup(
                headers_view(headers@).skip(i as int),
                key.spec_bytes(),
            ),
        decreases n - i,
    {
        let ghost hv = headers_view(headers@);
        proof {
            assert(hv.skip(i as int)[0] == hv[i as int]);
            assert(hv.skip(i as int).drop_first() =~= hv.skip(i + 1));
        }
        if crate::wire::bytes_eq_nocase(headers[i].name.as_slice(), key_bytes) {
            let v = slice_to_vec(headers[i].value.as_slice());
            return Some(v);
        }
        i += 1;
    }
    proof {
        assert(headers_view(headers@).skip(n as int) =~= Seq::<(Seq<u8>, Seq<u8>)>::empty());
    }
    None
}

} // verus!
