//! Typed errors, plain-value HTTP requests and responses, and the verified
//! half of request execution: building query strings and decoding response
//! bodies into a typed success or a typed error.
//!
//! The asynchronous networking engine lives outside this crate; it is
//! reached through [`HttpTransport`], whose one method carries a request of
//! plain values and returns a response of plain values. Everything around
//! that call is verified.

use vstd::prelude::*;

use crate::json::{
    obj_get, json_parse, JVal, JsonVal, bytes_to_string, get_field, as_str, as_i64, json_parse_x,
    bytes_clone,
};
use crate::num::{u64_dec, i64_dec};
use vstd::utf8::{valid_utf8, decode_utf8};
use vstd::string::StringExecFns;

verus! {

/// Structured error envelope returned by the API on a non-2xx response.
#[derive(Debug, Clone, PartialEq)]
pub struct ApiError {
    pub error: Option<ErrorDetails>,
    pub error_description: Option<String>,
}

/// The inner detail record of an [`ApiError`] envelope.
#[derive(Debug, Clone, PartialEq)]
pub struct ErrorDetails {
    pub code: Option<usize>,
    pub message: Option<String>,
    pub status: Option<String>,
}

/// Every failure the client surfaces to a caller.
#[derive(Debug, Clone, PartialEq)]
pub enum Error {
    /// The API answered a non-2xx status with a decodable error envelope.
    ApiError(ApiError),
    /// A certificate or key could not be converted.
    OpenSslError(String),
    /// The transport failed to carry the request (network or TLS).
    HyperError(String),
    /// A response body was not the JSON shape the caller expected.
    JsonError(String),
    /// A credential, signature or decoding failure in the trust path.
    Unauthorized,
}

impl Error {
    /// A short, stable label for the error kind.
    pub fn kind_name(&self) -> (r: &'static str)
        ensures
            r@ == match self {
                Error::ApiError(_) => "ApiError"@,
                Error::OpenSslError(_) => "OpenSslError"@,
                Error::HyperError(_) => "HyperError"@,
                Error::JsonError(_) => "JsonError"@,
                Error::Unauthorized => "Unauthorized"@,
            },
    {
        match self {
            Error::ApiError(_) => "ApiError",
            Error::OpenSslError(_) => "OpenSslError",
            Error::HyperError(_) => "HyperError",
            Error::JsonError(_) => "JsonError",
            Error::Unauthorized => "Unauthorized",
        }
    }
}

/// The two request methods the client issues.
#[derive(Debug, Clone, Copy, PartialEq, Eq, Structural)]
pub enum HttpMethod {
    Get,
    Post,
}

/// One HTTP request, as plain values; the URI and header text are ASCII
/// bytes.
#[derive(Debug)]
pub struct HttpRequest {
    pub method: HttpMethod,
    pub uri: Vec<u8>,
    pub headers: Vec<(Vec<u8>, Vec<u8>)>,
    pub body: Vec<u8>,
}

/// One HTTP response, as plain values.
#[derive(Debug)]
pub struct HttpResponse {
    pub status: u16,
    pub headers: Vec<(Vec<u8>, Vec<u8>)>,
    pub body: Vec<u8>,
}

/// The engine that carries a request to the network and back. The
/// implementation lives outside this crate (it owns the worker thread and
/// the TLS-capable asynchronous engine), so nothing is assumed of it: every
/// caller states what holds whatever comes back.
pub trait HttpTransport {
    /// Executes one request, blocking until its response or failure.
    fn execute(&self, r: &HttpRequest) -> Result<HttpResponse, Error>;
}

// ---------------------------------------------------------------------------
// Query-string and form encoding
// ---------------------------------------------------------------------------
/// The uppercase hex digit for a four-bit value.
pub open spec fn hex_upper(v: u8) -> u8 {
    if v < 10 {
        (48 + v) as u8
    } else {
        (55 + v) as u8
    }
}

/// Whether a byte must be percent-escaped in a query string: controls,
/// space, `"`, `#`, `<`, `>`, and everything past ASCII.
pub open spec fn query_escaped(b: u8) -> bool {
    b <= 32 || b == 34 || b == 35 || b == 60 || b == 62 || b >= 127
}

/// One query-string byte: itself, or its `%XX` escape.
pub open spec fn query_byte(b: u8) -> Seq<u8> {
    if query_escaped(b) {
        seq![37u8, hex_upper(b >> 4), hex_upper(b & 15)]
    } else {
        seq![b]
    }
}

/// The query-string encoding of a whole text.
pub open spec fn query_bytes(s: Seq<u8>) -> Seq<u8>
    decreases s.len(),
{
    if s.len() == 0 {
        Seq::empty()
    } else {
        query_byte(s[0]) + query_bytes(s.subrange(1, s.len() as int))
    }
}

/// The `k=v` pairs of a query string, joined with `&`.
pub open spec fn query_string(pairs: Seq<(Seq<u8>, Seq<u8>)>) -> Seq<u8>
    decreases pairs.len(),
{
    if pairs.len() == 0 {
        Seq::empty()
    } else {
        let head = query_bytes(pairs[0].0) + seq![61u8] + query_bytes(pairs[0].1);
        if pairs.len() == 1 {
            head
        } else {
            head + seq![38u8] + query_string(pairs.subrange(1, pairs.len() as int))
        }
    }
}

/// Whether a byte stands for itself in a form-urlencoded body:
/// alphanumerics and `*`, `-`, `.`, `_`.
pub open spec fn form_plain(b: u8) -> bool {
    (48 <= b && b <= 57) || (65 <= b && b <= 90) || (97 <= b && b <= 122) || b == 42 || b == 45
        || b == 46 || b == 95
}

/// One form-urlencoded byte: itself, `+` for a space, or its `%XX` escape.
pub open spec fn form_byte(b: u8) -> Seq<u8> {
    if form_plain(b) {
        seq![b]
    } else if b == 32 {
        seq![43u8]
    } else {
        seq![37u8, hex_upper(b >> 4), hex_upper(b & 15)]
    }
}

/// The form-urlencoded encoding of a whole text.
pub open spec fn form_bytes(s: Seq<u8>) -> Seq<u8>
    decreases s.len(),
{
    if s.len() == 0 {
        Seq::empty()
    } else {
        form_byte(s[0]) + form_bytes(s.subrange(1, s.len() as int))
    }
}

/// The `k=v` pairs of a form body, joined with `&`.
pub open spec fn form_string(pairs: Seq<(Seq<u8>, Seq<u8>)>) -> Seq<u8>
    decreases pairs.len(),
{
    if pairs.len() == 0 {
        Seq::empty()
    } else {
        let head = form_bytes(pairs[0].0) + seq![61u8] + form_bytes(pairs[0].1);
        if pairs.len() == 1 {
            head
        } else {
            head + seq![38u8] + form_string(pairs.subrange(1, pairs.len() as int))
        }
    }
}

/// Escaping distributes over appending one byte (query form).
proof fn lemma_query_bytes_snoc(p: Seq<u8>, b: u8)
    ensures
        query_bytes(p.push(b)) == query_bytes(p) + query_byte(b),
    decreases p.len(),
{
    assert(query_bytes(Seq::<u8>::empty()) =~= Seq::<u8>::empty());
    if p.len() == 0 {
        assert(p.push(b)[0] == b);
        assert(p.push(b).subrange(1, 1) =~= Seq::<u8>::empty());
        assert(query_bytes(p.push(b)) =~= query_byte(b));
        assert(query_bytes(p) + query_byte(b) =~= query_byte(b));
    } else {
        assert(p.push(b)[0] == p[0]);
        assert(p.push(b).subrange(1, p.len() as int + 1) =~= p.subrange(1, p.len() as int).push(b));
        lemma_query_bytes_snoc(p.subrange(1, p.len() as int), b);
        assert(query_bytes(p.push(b)) =~= query_bytes(p) + query_byte(b));
    }
}

/// Escaping distributes over appending one byte (form body).
proof fn lemma_form_bytes_snoc(p: Seq<u8>, b: u8)
    ensures
        form_bytes(p.push(b)) == form_bytes(p) + form_byte(b),
    decreases p.len(),
{
    assert(form_bytes(Seq::<u8>::empty()) =~= Seq::<u8>::empty());
    if p.len() == 0 {
        assert(p.push(b)[0] == b);
        assert(p.push(b).subrange(1, 1) =~= Seq::<u8>::empty());
        assert(form_bytes(p.push(b)) =~= form_byte(b));
        assert(form_bytes(p) + form_byte(b) =~= form_byte(b));
    } else {
        assert(p.push(b)[0] == p[0]);
        assert(p.push(b).subrange(1, p.len() as int + 1) =~= p.subrange(1, p.len() as int).push(b));
        lemma_form_bytes_snoc(p.subrange(1, p.len() as int), b);
        assert(form_bytes(p.push(b)) =~= form_bytes(p) + form_byte(b));
    }
}

/// The uppercase hex digit for a four-bit value.
fn hex_upper_x(v: u8) -> (r: u8)
    requires
        v < 16,
    ensures
        r == hex_upper(v),
{
    if v < 10 {
        48 + v
    } else {
        55 + v
    }
}

/// Appends the query-string escape of one text to `out`.
fn push_query_bytes(out: &mut Vec<u8>, s: &[u8])
    ensures
        final(out)@ == old(out)@ + query_bytes(s@),
{
    let mut k: usize = 0;
    proof {
        assert(s@.take(0) =~= Seq::<u8>::empty());
        assert(query_bytes(Seq::<u8>::empty()) =~= Seq::<u8>::empty());
        assert(out@ =~= old(out)@ + query_bytes(s@.take(0)));
    }
    while k < s.len()
        invariant
            k <= s.len(),
            out@ == old(out)@ + query_bytes(s@.take(k as int)),
        decreases s.len() - k,
    {
        let b = s[k];
        let ghost o0 = out@;
        if b <= 32 || b == 34 || b == 35 || b == 60 || b == 62 || b >= 127 {
            out.push(37);
            proof {
                assert(b >> 4 < 16 && b & 15 < 16) by (bit_vector);
            }
            out.push(hex_upper_x(b >> 4));
            out.push(hex_upper_x(b & 15));
        } else {
            out.push(b);
        }
        proof {
            assert(out@ =~= o0 + query_byte(b));
            lemma_query_bytes_snoc(s@.take(k as int), b);
            assert(s@.take(k as int + 1) =~= s@.take(k as int).push(b));
            assert(out@ =~= old(out)@ + query_bytes(s@.take(k as int + 1)));
        }
        k += 1;
    }
    proof {
        assert(s@.take(s@.len() as int) =~= s@);
    }
}

/// Appends the form-urlencoded escape of one text to `out`.
fn push_form_bytes(out: &mut Vec<u8>, s: &[u8])
    ensures
        final(out)@ == old(out)@ + form_bytes(s@),
{
    let mut k: usize = 0;
    proof {
        assert(s@.take(0) =~= Seq::<u8>::empty());
        assert(form_bytes(Seq::<u8>::empty()) =~= Seq::<u8>::empty());
        assert(out@ =~= old(out)@ + form_bytes(s@.take(0)));
    }
    while k < s.len()
        invariant
            k <= s.len(),
            out@ == old(out)@ + form_bytes(s@.take(k as int)),
        decreases s.len() - k,
    {
        let b = s[k];
        let ghost o0 = out@;
        if (48 <= b && b <= 57) || (65 <= b && b <= 90) || (97 <= b && b <= 122) || b == 42 || b
            == 45 || b == 46 || b == 95 {
            out.push(b);
        } else if b == 32 {
            out.push(43);
        } else {
            out.push(37);
            proof {
                assert(b >> 4 < 16 && b & 15 < 16) by (bit_vector);
            }
            out.push(hex_upper_x(b >> 4));
            out.push(hex_upper_x(b & 15));
        }
        proof {
            assert(out@ =~= o0 + form_byte(b));
            lemma_form_bytes_snoc(s@.take(k as int), b);
            assert(s@.take(k as int + 1) =~= s@.take(k as int).push(b));
            assert(out@ =~= old(out)@ + form_bytes(s@.take(k as int + 1)));
        }
        k += 1;
    }
    proof {
        assert(s@.take(s@.len() as int) =~= s@);
    }
}

/// The view of a pair list as byte sequences.
pub open spec fn pair_views(pairs: Seq<(Vec<u8>, Vec<u8>)>) -> Seq<(Seq<u8>, Seq<u8>)>
    decreases pairs.len(),
{
    if pairs.len() == 0 {
        Seq::empty()
    } else {
        seq![(pairs[0].0@, pairs[0].1@)] + pair_views(pairs.subrange(1, pairs.len() as int))
    }
}

/// A pair list's views grow one by one.
proof fn lemma_pair_views_snoc(p: Seq<(Vec<u8>, Vec<u8>)>, m: (Vec<u8>, Vec<u8>))
    ensures
        pair_views(p.push(m)) == pair_views(p).push((m.0@, m.1@)),
        pair_views(p).len() == p.len(),
    decreases p.len(),
{
    if p.len() == 0 {
        assert(p.push(m)[0] == m);
        assert(p.push(m).subrange(1, 1) =~= Seq::<(Vec<u8>, Vec<u8>)>::empty());
        assert(pair_views(Seq::<(Vec<u8>, Vec<u8>)>::empty()) =~= Seq::<(Seq<u8>, Seq<u8>)>::empty());
        assert(pair_views(p.push(m)) =~= pair_views(p).push((m.0@, m.1@)));
    } else {
        assert(p.push(m)[0] == p[0]);
        assert(p.push(m).subrange(1, p.len() as int + 1) =~= p.subrange(1, p.len() as int).push(m));
        lemma_pair_views_snoc(p.subrange(1, p.len() as int), m);
        assert(pair_views(p.push(m)) =~= pair_views(p).push((m.0@, m.1@)));
    }
}

/// The query string grows by a separator and the new pair's text.
proof fn lemma_query_string_snoc(p: Seq<(Seq<u8>, Seq<u8>)>, m: (Seq<u8>, Seq<u8>))
    ensures
        p.len() == 0 ==> query_string(p.push(m)) == query_bytes(m.0) + seq![61u8] + query_bytes(
            m.1,
        ),
        p.len() > 0 ==> query_string(p.push(m)) == query_string(p) + seq![38u8] + (query_bytes(m.0)
            + seq![61u8] + query_bytes(m.1)),
    decreases p.len(),
{
    if p.len() == 0 {
        assert(p.push(m)[0] == m);
    } else {
        assert(p.push(m)[0] == p[0]);
        assert(p.push(m).subrange(1, p.len() as int + 1) =~= p.subrange(1, p.len() as int).push(m));
        lemma_query_string_snoc(p.subrange(1, p.len() as int), m);
        if p.len() == 1 {
            assert(query_string(p) =~= query_bytes(p[0].0) + seq![61u8] + query_bytes(p[0].1));
        }
        assert(query_string(p.push(m)) =~= query_string(p) + seq![38u8] + (query_bytes(m.0)
            + seq![61u8] + query_bytes(m.1)));
    }
}

/// The form body grows by a separator and the new pair's text.
proof fn lemma_form_string_snoc(p: Seq<(Seq<u8>, Seq<u8>)>, m: (Seq<u8>, Seq<u8>))
    ensures
        p.len() == 0 ==> form_string(p.push(m)) == form_bytes(m.0) + seq![61u8] + form_bytes(m.1),
        p.len() > 0 ==> form_string(p.push(m)) == form_string(p) + seq![38u8] + (form_bytes(m.0)
            + seq![61u8] + form_bytes(m.1)),
    decreases p.len(),
{
    if p.len() == 0 {
        assert(p.push(m)[0] == m);
    } else {
        assert(p.push(m)[0] == p[0]);
        assert(p.push(m).subrange(1, p.len() as int + 1) =~= p.subrange(1, p.len() as int).push(m));
        lemma_form_string_snoc(p.subrange(1, p.len() as int), m);
        if p.len() == 1 {
            assert(form_string(p) =~= form_bytes(p[0].0) + seq![61u8] + form_bytes(p[0].1));
        }
        assert(form_string(p.push(m)) =~= form_string(p) + seq![38u8] + (form_bytes(m.0)
            + seq![61u8] + form_bytes(m.1)));
    }
}

/// Joins `k=v` pairs with `&`, percent-escaping each key and value as a
/// query string does.
pub fn encode_query_params(pairs: &Vec<(Vec<u8>, Vec<u8>)>) -> (r: Vec<u8>)
    ensures
        r@ == query_string(pair_views(pairs@)),
{
    let mut out: Vec<u8> = Vec::new();
    let mut k: usize = 0;
    proof {
        assert(pairs@.take(0) =~= Seq::<(Vec<u8>, Vec<u8>)>::empty());
        assert(pair_views(Seq::<(Vec<u8>, Vec<u8>)>::empty()) =~= Seq::<(Seq<u8>, Seq<u8>)>::empty());
        assert(query_string(Seq::<(Seq<u8>, Seq<u8>)>::empty()) =~= Seq::<u8>::empty());
    }
    while k < pairs.len()
        invariant
            k <= pairs.len(),
            out@ == query_string(pair_views(pairs@.take(k as int))),
        decreases pairs.len() - k,
    {
        proof {
            lemma_pair_views_snoc(pairs@.take(k as int), pairs@[k as int]);
        }
        if k > 0 {
            out.push(38);
        }
        push_query_bytes(&mut out, pairs[k].0.as_slice());
        out.push(61);
        push_query_bytes(&mut out, pairs[k].1.as_slice());
        proof {
            lemma_query_string_snoc(
                pair_views(pairs@.take(k as int)),
                (pairs@[k as int].0@, pairs@[k as int].1@),
            );
            assert(pairs@.take(k as int + 1) =~= pairs@.take(k as int).push(pairs@[k as int]));
            assert(out@ =~= query_string(pair_views(pairs@.take(k as int + 1))));
        }
        k += 1;
    }
    proof {
        assert(pairs@.take(pairs@.len() as int) =~= pairs@);
    }
    out
}

/// Joins `k=v` pairs with `&`, escaping each key and value as a
/// form-urlencoded body does.
pub fn encode_form_params(pairs: &Vec<(Vec<u8>, Vec<u8>)>) -> (r: Vec<u8>)
    ensures
        r@ == form_string(pair_views(pairs@)),
{
    let mut out: Vec<u8> = Vec::new();
    let mut k: usize = 0;
    proof {
        assert(pairs@.take(0) =~= Seq::<(Vec<u8>, Vec<u8>)>::empty());
        assert(pair_views(Seq::<(Vec<u8>, Vec<u8>)>::empty()) =~= Seq::<(Seq<u8>, Seq<u8>)>::empty());
        assert(form_string(Seq::<(Seq<u8>, Seq<u8>)>::empty()) =~= Seq::<u8>::empty());
    }
    while k < pairs.len()
        invariant
            k <= pairs.len(),
            out@ == form_string(pair_views(pairs@.take(k as int))),
        decreases pairs.len() - k,
    {
        proof {
            lemma_pair_views_snoc(pairs@.take(k as int), pairs@[k as int]);
        }
        if k > 0 {
            out.push(38);
        }
        push_form_bytes(&mut out, pairs[k].0.as_slice());
        out.push(61);
        push_form_bytes(&mut out, pairs[k].1.as_slice());
        proof {
            lemma_form_string_snoc(
                pair_views(pairs@.take(k as int)),
                (pairs@[k as int].0@, pairs@[k as int].1@),
            );
            assert(pairs@.take(k as int + 1) =~= pairs@.take(k as int).push(pairs@[k as int]));
            assert(out@ =~= form_string(pair_views(pairs@.take(k as int + 1))));
        }
        k += 1;
    }
    proof {
        assert(pairs@.take(pairs@.len() as int) =~= pairs@);
    }
    out
}

// ---------------------------------------------------------------------------
// Decoding responses
// ---------------------------------------------------------------------------
/// The member name `code`.
pub open spec fn k_code() -> Seq<u8> {
    seq![99u8, 111u8, 100u8, 101u8]
}

/// The member name `message`.
pub open spec fn k_message() -> Seq<u8> {
    seq![109u8, 101u8, 115u8, 115u8, 97u8, 103u8, 101u8]
}

/// The member name `status`.
pub open spec fn k_status() -> Seq<u8> {
    seq![115u8, 116u8, 97u8, 116u8, 117u8, 115u8]
}

/// The member name `error`.
pub open spec fn k_error() -> Seq<u8> {
    seq![101u8, 114u8, 114u8, 111u8, 114u8]
}

/// The member name `error_description`.
pub open spec fn k_error_description() -> Seq<u8> {
    seq![101u8, 114u8, 114u8, 111u8, 114u8, 95u8, 100u8, 101u8, 115u8, 99u8, 114u8, 105u8, 112u8,
        116u8, 105u8, 111u8, 110u8]
}


/// Whether an optional member can feed an optional string field: absent,
/// null, or a string of valid UTF-8.
pub open spec fn opt_str_ok(f: Option<JVal>) -> bool {
    match f {
        None => true,
        Some(JVal::Null) => true,
        Some(JVal::Str(t)) => valid_utf8(t),
        _ => false,
    }
}

/// Whether an optional member can feed an optional unsigned field: absent,
/// null, or a canonical decimal within `usize`.
pub open spec fn opt_usize_ok(f: Option<JVal>) -> bool {
    match f {
        None => true,
        Some(JVal::Null) => true,
        Some(JVal::Num(t)) => exists|n: usize| t == u64_dec(n as nat),
        _ => false,
    }
}

/// How an optional string field relates to the member it came from.
pub open spec fn opt_str_field(f: Option<JVal>, r: Option<String>) -> bool {
    match r {
        Some(s) => f matches Some(JVal::Str(t)) && valid_utf8(t) && s@ == decode_utf8(t),
        None => f is None || f == Some(JVal::Null),
    }
}

/// How an optional unsigned field relates to the member it came from.
pub open spec fn opt_usize_field(f: Option<JVal>, r: Option<usize>) -> bool {
    match r {
        Some(n) => f == Some(JVal::Num(u64_dec(n as nat))),
        None => f is None || f == Some(JVal::Null),
    }
}

/// The shape a document must have to decode as an [`ErrorDetails`].
pub open spec fn error_details_shape(v: JVal) -> bool {
    &&& v is Obj
    &&& opt_usize_ok(obj_get(v, k_code()))
    &&& opt_str_ok(obj_get(v, k_message()))
    &&& opt_str_ok(obj_get(v, k_status()))
}

/// How a decoded [`ErrorDetails`] relates to its document.
pub open spec fn error_details_match(v: JVal, d: ErrorDetails) -> bool {
    &&& opt_usize_field(obj_get(v, k_code()), d.code)
    &&& opt_str_field(obj_get(v, k_message()), d.message)
    &&& opt_str_field(obj_get(v, k_status()), d.status)
}

/// The shape a document must have to decode as an [`ApiError`].
pub open spec fn api_error_shape(v: JVal) -> bool {
    &&& v is Obj
    &&& match obj_get(v, k_error()) {
        None => true,
        Some(JVal::Null) => true,
        Some(e) => error_details_shape(e),
    }
    &&& opt_str_ok(obj_get(v, k_error_description()))
}

/// How a decoded [`ApiError`] relates to its document.
pub open spec fn api_error_match(v: JVal, a: ApiError) -> bool {
    &&& match a.error {
        Some(d) => obj_get(v, k_error()) matches Some(e)
            && error_details_match(e, d),
        None => {
            let f = obj_get(v, k_error());
            f is None || f == Some(JVal::Null)
        },
    }
    &&& opt_str_field(obj_get(v, k_error_description()), a.error_description)
}

} // verus!

verus! {

/// The member name `code`, as held bytes.
fn k_code_x() -> (r: Vec<u8>)
    ensures
        r@ == k_code(),
{
    let r: Vec<u8> = vec![99u8, 111, 100, 101];
    proof {
        assert(r@ =~= k_code());
    }
    r
}

/// The member name `message`, as held bytes.
fn k_message_x() -> (r: Vec<u8>)
    ensures
        r@ == k_message(),
{
    let r: Vec<u8> = vec![109u8, 101, 115, 115, 97, 103, 101];
    proof {
        assert(r@ =~= k_message());
    }
    r
}

/// The member name `status`, as held bytes.
fn k_status_x() -> (r: Vec<u8>)
    ensures
        r@ == k_status(),
{
    let r: Vec<u8> = vec![115u8, 116, 97, 116, 117, 115];
    proof {
        assert(r@ =~= k_status());
    }
    r
}

/// The member name `error`, as held bytes.
fn k_error_x() -> (r: Vec<u8>)
    ensures
        r@ == k_error(),
{
    let r: Vec<u8> = vec![101u8, 114, 114, 111, 114];
    proof {
        assert(r@ =~= k_error());
    }
    r
}

/// The member name `error_description`, as held bytes.
fn k_error_description_x() -> (r: Vec<u8>)
    ensures
        r@ == k_error_description(),
{
    let r: Vec<u8> = vec![101u8, 114, 114, 111, 114, 95, 100, 101, 115, 99, 114, 105, 112, 116,
        105, 111, 110];
    proof {
        assert(r@ =~= k_error_description());
    }
    r
}

/// Reads an optional string member: absent or null give `None`, a valid
/// UTF-8 string gives `Some`, anything else is a shape error.
pub fn read_opt_str(v: &JsonVal, k: &[u8]) -> (r: Result<Option<String>, ()>)
    ensures
        match r {
            Ok(o) => opt_str_ok(obj_get(v@, k@)) && opt_str_field(obj_get(v@, k@), o),
            Err(()) => !opt_str_ok(obj_get(v@, k@)),
        },
{
    match get_field(v, k) {
        None => Ok(None),
        Some(f) => match f {
            JsonVal::Null => Ok(None),
            JsonVal::Str(t) => match bytes_to_string(bytes_clone(t)) {
                Ok(s) => Ok(Some(s)),
                Err(_) => Err(()),
            },
            _ => Err(()),
        },
    }
}

/// Reads an optional unsigned member: absent or null give `None`, a
/// canonical decimal within `usize` gives `Some`, anything else is a shape
/// error.
pub fn read_opt_usize(v: &JsonVal, k: &[u8]) -> (r: Result<Option<usize>, ()>)
    ensures
        match r {
            Ok(o) => opt_usize_ok(obj_get(v@, k@)) && opt_usize_field(obj_get(v@, k@), o),
            Err(()) => !opt_usize_ok(obj_get(v@, k@)),
        },
{
    match get_field(v, k) {
        None => Ok(None),
        Some(f) => match f {
            JsonVal::Null => Ok(None),
            JsonVal::Num(t) => match crate::num::dec_to_u64_at(t.as_slice(), 0, t.len()) {
                Some(n) => {
                    proof {
                        assert(t@.subrange(0, t@.len() as int) =~= t@);
                    }
                    if n <= usize::MAX as u64 {
                        proof {
                            assert(t@ == u64_dec((n as usize) as nat));
                        }
                        Ok(Some(n as usize))
                    } else {
                        proof {
                            assert forall|m: usize| t@ != u64_dec(m as nat) by {
                                crate::num::lemma_u64_dec_props(m as nat);
                                crate::num::lemma_u64_dec_props(n as nat);
                                if t@ == u64_dec(m as nat) {
                                    assert(crate::num::dec_val(u64_dec(m as nat))
                                        == crate::num::dec_val(u64_dec(n as nat)));
                                }
                            }
                        }
                        Err(())
                    }
                },
                None => {
                    proof {
                        assert(t@.subrange(0, t@.len() as int) =~= t@);
                        assert forall|m: usize| t@ != u64_dec(m as nat) by {
                            assert(t@ != u64_dec((m as u64) as nat));
                        }
                    }
                    Err(())
                },
            },
            _ => Err(()),
        },
    }
}

/// Decodes an error-envelope document, mirroring the lenient record shape
/// the API uses: every member optional, unknown members ignored.
pub fn api_error_of_json(v: &JsonVal) -> (r: Option<ApiError>)
    ensures
        match r {
            Some(a) => api_error_shape(v@) && api_error_match(v@, a),
            None => !api_error_shape(v@),
        },
{
    match v {
        JsonVal::Obj(_) => {
            let desc = match read_opt_str(v, k_error_description_x().as_slice()) {
                Ok(o) => o,
                Err(()) => {
                    return None;
                },
            };
            let details: Option<ErrorDetails>;
            match get_field(v, k_error_x().as_slice()) {
                None => {
                    details = None;
                },
                Some(f) => match f {
                    JsonVal::Null => {
                        details = None;
                    },
                    JsonVal::Obj(_) => {
                        let code = match read_opt_usize(f, k_code_x().as_slice()) {
                            Ok(o) => o,
                            Err(()) => {
                                return None;
                            },
                        };
                        let message = match read_opt_str(f, k_message_x().as_slice()) {
                            Ok(o) => o,
                            Err(()) => {
                                return None;
                            },
                        };
                        let status = match read_opt_str(f, k_status_x().as_slice()) {
                            Ok(o) => o,
                            Err(()) => {
                                return None;
                            },
                        };
                        details = Some(ErrorDetails { code, message, status });
                    },
                    _ => {
                        return None;
                    },
                },
            }
            Some(ApiError { error: details, error_description: desc })
        },
        _ => None,
    }
}

/// Decodes a response: a 2xx status gives the parsed body, any other
/// status gives the decoded error envelope; a body that does not parse, or
/// an envelope of the wrong shape, is a JSON error.
pub fn decode_response(status: u16, body: &[u8]) -> (r: Result<JsonVal, Error>)
    ensures
        match r {
            Ok(v) => 200 <= status < 300 && json_parse(body@) == Some(v@),
            Err(Error::JsonError(_)) => json_parse(body@) is None || (!(200 <= status < 300) && (
            json_parse(body@) matches Some(v) && !api_error_shape(v))),
            Err(Error::ApiError(a)) => !(200 <= status < 300) && (json_parse(body@) matches Some(v)
                && api_error_shape(v) && api_error_match(v, a)),
            Err(_) => false,
        },
{
    match json_parse_x(body) {
        None => Err(Error::JsonError(json_error_text())),
        Some(v) => {
            if 200 <= status && status < 300 {
                Ok(v)
            } else {
                match api_error_of_json(&v) {
                    Some(a) => Err(Error::ApiError(a)),
                    None => Err(Error::JsonError(envelope_error_text())),
                }
            }
        },
    }
}

/// The message attached to a body that is not JSON.
fn json_error_text() -> String {
    String::from_str("response body is not the expected JSON shape")
}

/// The message attached to an error envelope of the wrong shape.
fn envelope_error_text() -> String {
    String::from_str("error envelope has an unexpected shape")
}

} // verus!

verus! {

/// The two capabilities the per-service layers consume: a bearer token for
/// a scope list, and one decoded HTTP exchange. [`Hub`] implements it over
/// a transport and the credential state; nothing is assumed of the network,
/// so the trait promises nothing of its results.
/// Whether a decoded document `v` is what a successful exchange with
/// status `status` and body `body` decodes to.
pub open spec fn successful_decode(status: u16, body: Seq<u8>, v: JVal) -> bool {
    200 <= status < 300 && json_parse(body) == Some(v)
}

/// Whether a document is what some successful exchange decodes to.
pub open spec fn decoded_from_success(v: JVal) -> bool {
    exists|status: u16, body: Seq<u8>| #[trigger] successful_decode(status, body, v)
}

pub trait RawApi {
    /// Executes a request and decodes its response: any decoded document
    /// came out of the body of some successful exchange.
    fn request(&self, r: HttpRequest) -> (res: Result<
        (Vec<(Vec<u8>, Vec<u8>)>, JsonVal),
        Error,
    >)
        ensures
            res matches Ok(p) ==> decoded_from_success(p.1@),
    ;
}

/// The authenticated surface over [`RawApi`].
pub trait ApiClient: RawApi {
    /// A bearer token for the given scopes, its expiry computed.
    fn token(&self, scopes: &[String]) -> (r: Result<crate::auth::Token, Error>)
        ensures
            r matches Ok(t) ==> t.expires_at is Some,
    ;

    /// A GET with a bearer token, returning the decoded body.
    fn get(&self, uri: Vec<u8>, scopes: &[String]) -> (res: Result<JsonVal, Error>)
        ensures
            res matches Ok(v) ==> decoded_from_success(v@),
    {
        let tok = match self.token(scopes) {
            Ok(t) => t,
            Err(e) => {
                return Err(e);
            },
        };
        let mut headers: Vec<(Vec<u8>, Vec<u8>)> = Vec::new();
        headers.push((auth_header_name(), tok.header_value_bytes()));
        let req = HttpRequest { method: HttpMethod::Get, uri, headers, body: Vec::new() };
        match self.request(req) {
            Ok((_, v)) => Ok(v),
            Err(e) => Err(e),
        }
    }

    /// A POST of a JSON body with a bearer token, returning the decoded
    /// body.
    fn post(&self, uri: Vec<u8>, body: &JsonVal, scopes: &[String]) -> (res: Result<
        JsonVal,
        Error,
    >)
        ensures
            res matches Ok(v) ==> decoded_from_success(v@),
    {
        let tok = match self.token(scopes) {
            Ok(t) => t,
            Err(e) => {
                return Err(e);
            },
        };
        let mut headers: Vec<(Vec<u8>, Vec<u8>)> = Vec::new();
        headers.push((auth_header_name(), tok.header_value_bytes()));
        headers.push((content_type_name(), json_content_type()));
        let req = HttpRequest {
            method: HttpMethod::Post,
            uri,
            headers,
            body: crate::json::to_json_bytes(body),
        };
        match self.request(req) {
            Ok((_, v)) => Ok(v),
            Err(e) => Err(e),
        }
    }
}

/// The `authorization` header name.
pub fn auth_header_name() -> (r: Vec<u8>)
    ensures
        r@ == seq![97u8, 117u8, 116u8, 104u8, 111u8, 114u8, 105u8, 122u8, 97u8, 116u8, 105u8,
            111u8, 110u8],
{
    let r: Vec<u8> = vec![97u8, 117, 116, 104, 111, 114, 105, 122, 97, 116, 105, 111, 110];
    proof {
        assert(r@ =~= seq![97u8, 117u8, 116u8, 104u8, 111u8, 114u8, 105u8, 122u8, 97u8, 116u8,
            105u8, 111u8, 110u8]);
    }
    r
}

/// The `content-type` header name.
pub fn content_type_name() -> (r: Vec<u8>)
    ensures
        r@ == seq![99u8, 111u8, 110u8, 116u8, 101u8, 110u8, 116u8, 45u8, 116u8, 121u8, 112u8,
            101u8],
{
    let r: Vec<u8> = vec![99u8, 111, 110, 116, 101, 110, 116, 45, 116, 121, 112, 101];
    proof {
        assert(r@ =~= seq![99u8, 111u8, 110u8, 116u8, 101u8, 110u8, 116u8, 45u8, 116u8, 121u8,
            112u8, 101u8]);
    }
    r
}

/// The `application/json` media type.
pub fn json_content_type() -> (r: Vec<u8>)
    ensures
        r@ == seq![97u8, 112u8, 112u8, 108u8, 105u8, 99u8, 97u8, 116u8, 105u8, 111u8, 110u8, 47u8,
            106u8, 115u8, 111u8, 110u8],
{
    let r: Vec<u8> = vec![97u8, 112, 112, 108, 105, 99, 97, 116, 105, 111, 110, 47, 106, 115, 111,
        110];
    proof {
        assert(r@ =~= seq![97u8, 112u8, 112u8, 108u8, 105u8, 99u8, 97u8, 116u8, 105u8, 111u8,
            110u8, 47u8, 106u8, 115u8, 111u8, 110u8]);
    }
    r
}

/// The `application/x-www-form-urlencoded` media type.
pub fn form_content_type() -> (r: Vec<u8>)
    ensures
        r@.len() == 33,
{
    let r: Vec<u8> = vec![97u8, 112, 112, 108, 105, 99, 97, 116, 105, 111, 110, 47, 120, 45, 119,
        119, 119, 45, 102, 111, 114, 109, 45, 117, 114, 108, 101, 110, 99, 111, 100, 101, 100];
    proof {
        assert(r@.len() == 33);
    }
    r
}

} // verus!

verus! {

/// The client: a project id, the credential state and the transport that
/// carries requests to the network.
pub struct GoogleCloudClient<T: HttpTransport> {
    project_id: String,
    auth: crate::auth::GoogleCloudAuth,
    transport: T,
}

impl<T: HttpTransport> GoogleCloudClient<T> {
    /// The held project id.
    pub closed spec fn spec_project_id(&self) -> Seq<char> {
        self.project_id@
    }

    /// The held credential state.
    pub closed spec fn spec_auth(&self) -> &crate::auth::GoogleCloudAuth {
        &self.auth
    }

    /// Assembles a client from its parts; the transport and credentials
    /// are built by the caller, so tests can pass their own.
    pub fn new(project_id: &str, auth: crate::auth::GoogleCloudAuth, transport: T) -> (r:
        GoogleCloudClient<T>)
        ensures
            r.spec_project_id() == project_id@,
            r.spec_auth().spec_adapter() == auth.spec_adapter(),
    {
        GoogleCloudClient { project_id: String::from_str(project_id), auth, transport }
    }

    /// A service-typed view of this client.
    pub fn hub<S>(&self) -> (r: Hub<'_, S, T>)
        ensures
            r.client() == self,
    {
        Hub { client: self, service: core::marker::PhantomData }
    }
}

/// A service-typed handle on the client; the per-service request methods
/// hang off this.
pub struct Hub<'a, S, T: HttpTransport> {
    client: &'a GoogleCloudClient<T>,
    service: core::marker::PhantomData<S>,
}

impl<'a, S, T: HttpTransport> Hub<'a, S, T> {
    /// The client this handle views.
    pub closed spec fn client(&self) -> &'a GoogleCloudClient<T> {
        self.client
    }

    /// The project this client addresses.
    pub fn project_id(&self) -> (r: &'a str)
        ensures
            r@ == self.client().spec_project_id(),
    {
        self.client.project_id.as_str()
    }
}

impl<'a, S, T: HttpTransport> RawApi for Hub<'a, S, T> {
    /// Hands the request to the transport and decodes what comes back.
    fn request(&self, r: HttpRequest) -> Result<(Vec<(Vec<u8>, Vec<u8>)>, JsonVal), Error> {
        let resp = match self.client.transport.execute(&r) {
            Ok(resp) => resp,
            Err(e) => {
                return Err(e);
            },
        };
        let v = match decode_response(resp.status, resp.body.as_slice()) {
            Ok(v) => v,
            Err(e) => {
                return Err(e);
            },
        };
        let ghost st = resp.status;
        let ghost bd = resp.body@;
        let out = (resp.headers, v);
        proof {
            assert(successful_decode(st, bd, out.1@));
            assert(decoded_from_success(out.1@));
        }
        Ok(out)
    }
}

impl<'a, S, T: HttpTransport> ApiClient for Hub<'a, S, T> {
    /// A bearer token from the shared cache.
    fn token(&self, scopes: &[String]) -> Result<crate::auth::Token, Error> {
        self.client.auth.token(self, scopes)
    }
}

impl<'a, T: HttpTransport> Hub<'a, crate::svc::tokeninfo::TokenInfoService, T> {
    /// A Firebase signing key by key id.
    pub fn get_firebase_pkey(&self, kid: &str) -> Result<crate::auth::PubKey, Error> {
        self.client.auth.get_firebase_pkey(self, kid)
    }

    /// A Google signing key by key id.
    pub fn get_google_auth_pkey(&self, kid: &str) -> Result<crate::auth::PubKey, Error> {
        self.client.auth.get_google_auth_pkey(self, kid)
    }

    /// Exchanges a verified identity token for a first-party token scoped
    /// to that identity.
    pub fn delegate(&self, id_token: &str, scopes: &[String]) -> (r: Result<
        crate::auth::Token,
        Error,
    >)
        ensures
            self.client().spec_auth().spec_adapter() is ApplicationDefault ==> r == Err::<
                crate::auth::Token,
                Error,
            >(Error::Unauthorized),
            self.client().spec_auth().spec_adapter() is ServiceAccount && !(
            crate::jwt::jwt_kid_of(vstd::utf8::encode_utf8(id_token@)) matches Some(b)
                && vstd::utf8::valid_utf8(b)) ==> r == Err::<crate::auth::Token, Error>(
                Error::Unauthorized,
            ),
    {
        self.client.auth.delegate(self, id_token, scopes)
    }
}

} // verus!
