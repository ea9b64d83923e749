//! The relay side: from a wire-form request to an outbound call, and from
//! what the call brought back to a normalised response envelope.
//!
//! The relay performs no retries: every outcome of an outbound call, failure
//! and timeout included, is reported once, as it came.
use vstd::prelude::*;
use vstd::string::StringExecFns;
use vstd::utf8::encode_utf8;
use crate::bytes::copy_bytes;
use crate::codec::{decode_request, decoded, DecodeError, Field, RequestEnvelope};
use crate::headers::{
    decimal_of, decimal_text, find_header, lookup, map_without, names_match, remove_header,
    set_header,
};
use crate::outside::{base64_encode, base64_of, gunzip, gunzip_of, inflate, inflate_of, url_ok, url_parses};
use crate::structs::{header_map, pairs_of, ProxyRequest, ProxyResponse};

verus! {

/// Seconds an outbound call may take before it is abandoned.
pub const REQUEST_TIMEOUT: u64 = 30;

/// The largest origin response body, in bytes, that the relay reads.
pub const MAX_BODY_SIZE: usize = 10485760;

/// Seconds an idle pooled connection is kept.
pub const POOL_IDLE_TIMEOUT: u64 = 30;

/// The most idle pooled connections kept per origin host.
pub const POOL_MAX_IDLE_PER_HOST: usize = 32;

/// Seconds between TCP keep-alive probes on outbound connections.
pub const TCP_KEEPALIVE: u64 = 60;

/// The methods the relay performs.
#[derive(Clone, Copy, Debug, PartialEq, Eq, Structural)]
pub enum Method {
    Get,
    Post,
    Put,
    Delete,
}

/// The method a token names, if the relay performs it.
pub open spec fn method_of(s: Seq<char>) -> Option<Method> {
    if s == "GET"@ {
        Some(Method::Get)
    } else if s == "POST"@ {
        Some(Method::Post)
    } else if s == "PUT"@ {
        Some(Method::Put)
    } else if s == "DELETE"@ {
        Some(Method::Delete)
    } else {
        None
    }
}

impl Method {
    /// Whether a request of this method carries its body outbound.
    pub open spec fn carries_body(self) -> bool {
        self == Method::Post || self == Method::Put
    }
}

/// Reads a method token.
pub fn parse_method(s: &String) -> (r: Option<Method>)
    ensures
        r == method_of(s@),
{
    if *s == "GET".to_owned() {
        Some(Method::Get)
    } else if *s == "POST".to_owned() {
        Some(Method::Post)
    } else if *s == "PUT".to_owned() {
        Some(Method::Put)
    } else if *s == "DELETE".to_owned() {
        Some(Method::Delete)
    } else {
        None
    }
}

/// An outbound call, ready to be sent.
pub struct Outbound {
    pub method: Method,
    /// The absolute target URL.
    pub url: String,
    /// The headers to send; a later entry for a name wins.
    pub headers: Vec<(String, String)>,
    /// The body, attached for POST and PUT only.
    pub body: Option<Vec<u8>>,
}

/// Why a request is refused before any outbound call.
pub enum Rejection {
    /// The envelope could not be decoded.
    Decode(DecodeError),
    /// The target is not an absolute URL.
    InvalidUrl(String),
    /// The method is not one the relay performs.
    UnsupportedMethod(String),
}

/// The headers sent outbound: `Host` and `Connection` are dropped and
/// `Cache-Control` is set to `no-cache`, whatever the case of their names.
pub open spec fn outbound_headers(m: Map<Seq<char>, Seq<char>>) -> Map<Seq<char>, Seq<char>> {
    map_without(map_without(map_without(m, "host"@), "connection"@), "cache-control"@).insert(
        "cache-control"@,
        "no-cache"@,
    )
}

/// Turns a wire-form request into an outbound call: the envelope is decoded,
/// its target must be an absolute URL and its method one of GET, POST, PUT
/// and DELETE.
pub fn prepare(w: &ProxyRequest) -> (r: Result<Outbound, Rejection>)
    ensures
        match decoded(*w) {
            Err(x) => r matches Err(Rejection::Decode(y)) && x == y,
            Ok(e) => if !url_parses(e.target) {
                r matches Err(Rejection::InvalidUrl(u)) && u@ == e.target
            } else {
                match method_of(e.method) {
                    None => r matches Err(Rejection::UnsupportedMethod(m)) && m@ == e.method,
                    Some(m) => r matches Ok(o) && o.method == m && o.url@ == e.target
                        && header_map(pairs_of(o.headers@)) == outbound_headers(e.headers) && (
                    if m.carries_body() {
                        o.body matches Some(b) && b@ == e.body
                    } else {
                        o.body is None
                    }),
                }
            },
        },
{
    let e: RequestEnvelope = match decode_request(w) {
        Ok(e) => e,
        Err(x) => return Err(Rejection::Decode(x)),
    };
    let RequestEnvelope { target, method, headers, body } = e;
    if !url_ok(target.as_str()) {
        return Err(Rejection::InvalidUrl(target));
    }
    let mut headers = headers;
    remove_header(&mut headers, "host");
    remove_header(&mut headers, "connection");
    set_header(&mut headers, "cache-control".to_owned(), "no-cache".to_owned());
    match parse_method(&method) {
        None => Err(Rejection::UnsupportedMethod(method)),
        Some(m) => {
            let body = match m {
                Method::Post | Method::Put => Some(body),
                _ => None,
            };
            Ok(Outbound { method: m, url: target, headers, body })
        },
    }
}

/// The diagnostic text for a refused request.
pub open spec fn rejection_message(x: Rejection) -> Seq<char> {
    match x {
        Rejection::Decode(DecodeError::Base64(Field::Target)) => "Invalid target URL encoding"@,
        Rejection::Decode(DecodeError::Utf8(Field::Target)) => "Invalid target URL encoding"@,
        Rejection::Decode(DecodeError::Base64(Field::Body)) => "Invalid body encoding"@,
        Rejection::Decode(DecodeError::Utf8(Field::Body)) => "Invalid body encoding"@,
        Rejection::Decode(_) => "Invalid headers encoding"@,
        Rejection::InvalidUrl(u) => "Invalid target URL: "@ + u@,
        Rejection::UnsupportedMethod(m) => "Unsupported method: "@ + m@,
    }
}

impl Rejection {
    /// The diagnostic text for this refusal.
    pub fn message(&self) -> (r: String)
        ensures
            r@ == rejection_message(*self),
    {
        match self {
            Rejection::Decode(DecodeError::Base64(Field::Target)) => "Invalid target URL encoding".to_owned(),
            Rejection::Decode(DecodeError::Utf8(Field::Target)) => "Invalid target URL encoding".to_owned(),
            Rejection::Decode(DecodeError::Base64(Field::Body)) => "Invalid body encoding".to_owned(),
            Rejection::Decode(DecodeError::Utf8(Field::Body)) => "Invalid body encoding".to_owned(),
            Rejection::Decode(_) => "Invalid headers encoding".to_owned(),
            Rejection::InvalidUrl(u) => {
                let mut s = "Invalid target URL: ".to_owned();
                s.append(u.as_str());
                s
            },
            Rejection::UnsupportedMethod(m) => {
                let mut s = "Unsupported method: ".to_owned();
                s.append(m.as_str());
                s
            },
        }
    }
}

/// A response envelope with no headers whose body is a diagnostic text.
pub fn error_response(status: u16, message: &str) -> (r: ProxyResponse)
    ensures
        r.status == status,
        r.headers@.len() == 0,
        r.body@ == base64_of(encode_utf8(message@)),
{
    ProxyResponse { status, headers: Vec::new(), body: base64_encode(message.as_bytes()) }
}

/// The response envelope for a refused request: status 400 with the
/// diagnostic as its body.
pub fn reject(x: &Rejection) -> (r: ProxyResponse)
    ensures
        r.status == 400,
        r.headers@.len() == 0,
        r.body@ == base64_of(encode_utf8(rejection_message(*x))),
{
    let m = x.message();
    error_response(400, m.as_str())
}

/// What the origin sent back.
pub struct OriginResponse {
    pub status: u16,
    /// The response headers, names in lower case.
    pub headers: Vec<(String, String)>,
    /// The body as read, at most one byte over `MAX_BODY_SIZE`.
    pub body: Vec<u8>,
}

/// How an outbound call ended.
pub enum Outcome {
    /// The origin answered.
    Completed(OriginResponse),
    /// The call failed below HTTP; the text says why.
    Failed(String),
    /// The call did not complete within `REQUEST_TIMEOUT` seconds.
    TimedOut,
}

/// The identity-encoded form of a body sent with the given content encoding:
/// gzip and deflate bodies inflated, any other body unchanged.
pub open spec fn content_decoded(enc: Option<Seq<char>>, b: Seq<u8>) -> Option<Seq<u8>> {
    if enc == Some("gzip"@) {
        gunzip_of(b)
    } else if enc == Some("deflate"@) {
        inflate_of(b)
    } else {
        Some(b)
    }
}

/// The identity-encoded body of a response with header entries `p`.
pub open spec fn normalized_body(p: Seq<(Seq<char>, Seq<char>)>, b: Seq<u8>) -> Option<Seq<u8>> {
    content_decoded(lookup(p, "content-encoding"@), b)
}

/// Undoes a gzip or deflate content encoding; a body with any other encoding,
/// or none, is returned unchanged. None when the body does not inflate.
pub fn decode_content(enc: &Option<String>, b: &[u8]) -> (r: Option<Vec<u8>>)
    ensures
        match r {
            Some(d) => content_decoded(opt_view(*enc), b@) == Some(d@),
            None => content_decoded(opt_view(*enc), b@) is None,
        },
{
    match enc {
        Some(e) => if *e == "gzip".to_owned() {
            gunzip(b)
        } else if *e == "deflate".to_owned() {
            inflate(b)
        } else {
            Some(copy_bytes(b))
        },
        None => Some(copy_bytes(b)),
    }
}

/// The view of an optional text.
pub open spec fn opt_view(o: Option<String>) -> Option<Seq<char>> {
    match o {
        Some(s) => Some(s@),
        None => None,
    }
}

/// The headers sent back for a body of `len` identity-encoded bytes.
pub open spec fn normalized_headers(h: Map<Seq<char>, Seq<char>>, len: nat) -> Map<
    Seq<char>,
    Seq<char>,
> {
    map_without(
        map_without(map_without(h, "content-encoding"@), "transfer-encoding"@),
        "content-length"@,
    ).insert("content-length"@, decimal_of(len))
}

/// No name in the mapping is `Content-Encoding` or `Transfer-Encoding`, in
/// any mix of cases.
pub open spec fn no_encoding(m: Map<Seq<char>, Seq<char>>) -> bool {
    forall|k: Seq<char>| #[trigger] m.contains_key(k) ==> !names_match(k, "content-encoding"@)
        && !names_match(k, "transfer-encoding"@)
}

/// The response envelope `r` is the normalised form of `resp`: a body over
/// `MAX_BODY_SIZE` or one that does not inflate gives status 500; otherwise
/// the status is kept, the body is identity-encoded, and the headers say so.
pub open spec fn normalized(resp: OriginResponse, r: ProxyResponse) -> bool {
    let h = header_map(pairs_of(resp.headers@));
    if resp.body@.len() > MAX_BODY_SIZE {
        r.status == 500 && r.headers@.len() == 0 && r.body@ == base64_of(
            encode_utf8("Response body too large"@),
        )
    } else {
        match normalized_body(pairs_of(resp.headers@), resp.body@) {
            None => r.status == 500 && r.headers@.len() == 0 && r.body@ == base64_of(
                encode_utf8("Decompression failed"@),
            ),
            Some(d) => r.status == resp.status && header_map(pairs_of(r.headers@))
                == normalized_headers(h, d.len()) && r.body@ == base64_of(d),
        }
    }
}

/// Normalises what the origin sent. A gzip or deflate body that inflates
/// leaves as the inflated bytes, with neither `Content-Encoding` nor
/// `Transfer-Encoding` among the headers.
pub fn normalize(resp: &OriginResponse) -> (r: ProxyResponse)
    ensures
        normalized(*resp, r),
        ({
            let p = pairs_of(resp.headers@);
            resp.body@.len() <= MAX_BODY_SIZE && (lookup(p, "content-encoding"@) == Some("gzip"@)
                || lookup(p, "content-encoding"@) == Some("deflate"@)) && normalized_body(
                p,
                resp.body@,
            ) is Some ==> r.body@ == base64_of(normalized_body(p, resp.body@)->0) && no_encoding(
                header_map(pairs_of(r.headers@)),
            )
        }),
{
    if resp.body.len() > MAX_BODY_SIZE {
        return error_response(500, "Response body too large");
    }
    let encoding = find_header(&resp.headers, "content-encoding");
    let inflated = decode_content(&encoding, resp.body.as_slice());
    let body = match inflated {
        Some(d) => d,
        None => return error_response(500, "Decompression failed"),
    };
    let mut headers = clone_headers(&resp.headers);
    remove_header(&mut headers, "content-encoding");
    remove_header(&mut headers, "transfer-encoding");
    set_header(&mut headers, "content-length".to_owned(), decimal_text(body.len()));
    proof {
        reveal_strlit("content-encoding");
        reveal_strlit("transfer-encoding");
        reveal_strlit("content-length");
        assert("content-length"@.len() != "content-encoding"@.len());
        assert("content-length"@.len() != "transfer-encoding"@.len());
    }
    ProxyResponse { status: resp.status, headers, body: base64_encode(body.as_slice()) }
}

/// A copy of a header list.
fn clone_headers(h: &Vec<(String, String)>) -> (r: Vec<(String, String)>)
    ensures
        r@ == h@,
{
    let mut out: Vec<(String, String)> = Vec::new();
    let mut i: usize = 0;
    while i < h.len()
        invariant
            i <= h@.len(),
            out@ == h@.take(i as int),
        decreases h@.len() - i,
    {
        let name = h[i].0.clone();
        let value = h[i].1.clone();
        out.push((name, value));
        assert(out@ =~= h@.take(i + 1));
        i += 1;
    }
    assert(h@.take(h@.len() as int) =~= h@);
    out
}

/// The response envelope for an outbound call's outcome: a timeout gives
/// status 504, a failure below HTTP status 500 with its text, and an answer
/// its normalised form.
pub fn finish(o: &Outcome) -> (r: ProxyResponse)
    ensures
        match o {
            Outcome::TimedOut => r.status == 504 && r.headers@.len() == 0 && r.body@
                == base64_of(encode_utf8("Request timed out"@)),
            Outcome::Failed(e) => r.status == 500 && r.headers@.len() == 0 && r.body@
                == base64_of(encode_utf8("Request failed: "@ + e@)),
            Outcome::Completed(resp) => normalized(*resp, r),
        },
{
    match o {
        Outcome::TimedOut => error_response(504, "Request timed out"),
        Outcome::Failed(e) => {
            let mut s = "Request failed: ".to_owned();
            s.append(e.as_str());
            error_response(500, s.as_str())
        },
        Outcome::Completed(resp) => normalize(resp),
    }
}

} // verus!
