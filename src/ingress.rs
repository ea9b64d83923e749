//! The ingress side: from the bytes a client sent to a tunnel or an envelope,
//! and from a response envelope to the bytes the client receives.
use vstd::prelude::*;
use vstd::string::StringExecFns;
use vstd::utf8::encode_utf8;
use crate::bytes::{copy_bytes, copy_range};
use crate::codec::{encode_request, wire_of, RequestEnvelope};
use crate::headers::{
    decimal_of, decimal_text, decimal_value, name_matches, names_match, parse_decimal,
};
use crate::outside::{
    base64_decode, base64_decode_of, canonical_reason, lossy_text, lossy_text_of,
    parse_request_head, reason_of, request_head_of, status_code_ok,
};
use crate::structs::{pairs_of, ProxyRequest, ProxyResponse};

verus! {

/// The most headers a request head may carry.
pub const MAX_HEADERS: usize = 64;

/// A request as a client sent it.
pub struct InboundRequest {
    pub method: String,
    /// The request target, absolute or origin-form.
    pub target: String,
    /// Header entries in the order sent, duplicates kept.
    pub headers: Vec<(String, String)>,
    /// The body bytes read with the head.
    pub body: Vec<u8>,
}

/// The header entries of a parsed head, values read as text.
pub open spec fn text_headers(h: Seq<(Seq<char>, Seq<u8>)>) -> Seq<(Seq<char>, Seq<char>)> {
    h.map_values(|e: (Seq<char>, Seq<u8>)| (e.0, lossy_text_of(e.1)))
}

/// Reads the request that a buffer holds, whose head ends where the body
/// begins at `body_start`: the head is parsed, header values are read as
/// text, and the bytes after the head are the body.
pub fn read_request(buffer: &[u8], body_start: usize) -> (r: Option<InboundRequest>)
    requires
        body_start <= buffer@.len(),
    ensures
        match request_head_of(buffer@.take(body_start as int), MAX_HEADERS) {
            None => r is None,
            Some(h) => r matches Some(q) && q.method@ == h.0 && q.target@ == h.1 && pairs_of(
                q.headers@,
            ) == text_headers(h.2) && q.body@ == buffer@.subrange(
                body_start as int,
                buffer@.len() as int,
            ),
        },
{
    let head = copy_range(buffer, 0, body_start);
    assert(head@ =~= buffer@.take(body_start as int));
    let (method, target, raw) = match parse_request_head(head.as_slice(), MAX_HEADERS) {
        Some(h) => h,
        None => return None,
    };
    let ghost rv = raw@.map_values(|e: (String, Vec<u8>)| (e.0@, e.1@));
    let mut headers: Vec<(String, String)> = Vec::new();
    let mut i: usize = 0;
    while i < raw.len()
        invariant
            i <= raw@.len(),
            rv == raw@.map_values(|e: (String, Vec<u8>)| (e.0@, e.1@)),
            pairs_of(headers@) == text_headers(rv).take(i as int),
        decreases raw@.len() - i,
    {
        let ghost before = headers@;
        let name = raw[i].0.clone();
        let value = lossy_text(raw[i].1.as_slice());
        headers.push((name, value));
        assert(pairs_of(headers@) =~= text_headers(rv).take(i + 1)) by {
            assert(pairs_of(headers@).drop_last() =~= pairs_of(before));
        }
        i += 1;
    }
    assert(text_headers(rv).take(raw@.len() as int) =~= text_headers(rv));
    let body = copy_range(buffer, body_start, buffer.len());
    Some(InboundRequest { method, target, headers, body })
}

/// The body length a header list declares: the last `Content-Length` entry
/// decides, and an entry that is not a number declares none.
pub open spec fn body_length_of(h: Seq<(Seq<char>, Seq<char>)>) -> Option<nat>
    decreases h.len(),
{
    if h.len() == 0 {
        None
    } else if names_match(h.last().0, "content-length"@) {
        decimal_value(h.last().1)
    } else {
        body_length_of(h.drop_last())
    }
}

/// The body length that a request's headers declare, if any.
pub fn body_length(h: &Vec<(String, String)>) -> (r: Option<usize>)
    ensures
        match r {
            Some(n) => body_length_of(pairs_of(h@)) == Some(n as nat),
            None => body_length_of(pairs_of(h@)) is None,
        },
{
    let ghost p = pairs_of(h@);
    let mut i: usize = h.len();
    assert(p.take(i as int) =~= p);
    while i > 0
        invariant
            i <= h@.len(),
            p == pairs_of(h@),
            body_length_of(p) == body_length_of(p.take(i as int)),
        decreases i,
    {
        assert(p.take(i as int).drop_last() =~= p.take(i - 1));
        if name_matches(h[i - 1].0.as_str(), "content-length") {
            return parse_decimal(h[i - 1].1.as_str());
        }
        i -= 1;
    }
    None
}

/// What the ingress does with a request.
pub enum Route {
    /// Open a tunnel to this `host:port` authority.
    Tunnel(String),
    /// Send this envelope to the relay.
    Forward(ProxyRequest),
}

/// The envelope a client request becomes: its headers as the mapping they
/// denote, a later entry for a name winning.
pub open spec fn envelope_of(q: InboundRequest) -> RequestEnvelope {
    RequestEnvelope { target: q.target, method: q.method, headers: q.headers, body: q.body }
}

/// Tunnels a CONNECT request and forwards any other as an envelope.
pub fn route(q: InboundRequest) -> (r: Route)
    ensures
        q.method@ == "CONNECT"@ ==> (r matches Route::Tunnel(t) && t@ == q.target@),
        q.method@ != "CONNECT"@ ==> (r matches Route::Forward(w) && wire_of(envelope_of(q), w)),
{
    if q.method == "CONNECT".to_owned() {
        Route::Tunnel(q.target)
    } else {
        let e = RequestEnvelope { target: q.target, method: q.method, headers: q.headers, body: q.body };
        Route::Forward(encode_request(&e))
    }
}

/// The reply written when the relay cannot be reached.
pub fn bad_gateway() -> (r: Vec<u8>)
    ensures
        r@ == encode_utf8("HTTP/1.1 502 Bad Gateway\r\n\r\n"@),
{
    let s = "HTTP/1.1 502 Bad Gateway\r\n\r\n";
    copy_bytes(s.as_bytes())
}

/// Why a response envelope cannot be written to the client.
#[derive(Clone, Copy, Debug, PartialEq, Eq, Structural)]
pub enum RenderError {
    /// The status is not a code from 100 to 999.
    InvalidStatus,
    /// The body is not padded standard base64.
    InvalidBody,
}

/// The header lines of a response, each `Name: Value` and CRLF.
pub open spec fn header_lines(h: Seq<(Seq<char>, Seq<char>)>) -> Seq<char>
    decreases h.len(),
{
    if h.len() == 0 {
        Seq::empty()
    } else {
        header_lines(h.drop_last()) + h.last().0 + ": "@ + h.last().1 + "\r\n"@
    }
}

/// The head of a response: status line, header lines and a blank line.
pub open spec fn response_head(status: u16, reason: Seq<char>, h: Seq<(Seq<char>, Seq<char>)>) -> Seq<char> {
    "HTTP/1.1 "@ + decimal_of(status as nat) + " "@ + reason + "\r\n"@ + header_lines(h) + "\r\n"@
}

/// The bytes written to the client for a response envelope.
pub open spec fn rendered(resp: ProxyResponse) -> Result<Seq<u8>, RenderError> {
    if !(100 <= resp.status && resp.status <= 999) {
        Err(RenderError::InvalidStatus)
    } else {
        match base64_decode_of(resp.body@) {
            None => Err(RenderError::InvalidBody),
            Some(body) => {
                let reason = match reason_of(resp.status) {
                    Some(s) => s,
                    None => Seq::empty(),
                };
                Ok(encode_utf8(response_head(resp.status, reason, pairs_of(resp.headers@))) + body)
            },
        }
    }
}

/// Writes a response envelope as an HTTP/1.1 response: status line with the
/// canonical reason, each header, a blank line, then the decoded body.
pub fn render_response(resp: &ProxyResponse) -> (r: Result<Vec<u8>, RenderError>)
    ensures
        match r {
            Ok(b) => rendered(*resp) == Ok::<Seq<u8>, RenderError>(b@),
            Err(x) => rendered(*resp) == Err::<Seq<u8>, RenderError>(x),
        },
{
    if !status_code_ok(resp.status) {
        return Err(RenderError::InvalidStatus);
    }
    let body = match base64_decode(resp.body.as_str()) {
        Some(b) => b,
        None => return Err(RenderError::InvalidBody),
    };
    let reason = match canonical_reason(resp.status) {
        Some(s) => s,
        None => String::new(),
    };
    let mut text = "HTTP/1.1 ".to_owned();
    text.append(decimal_text(resp.status as usize).as_str());
    text.append(" ");
    text.append(reason.as_str());
    text.append("\r\n");
    let ghost p = pairs_of(resp.headers@);
    let ghost start = text@;
    let mut i: usize = 0;
    while i < resp.headers.len()
        invariant
            i <= resp.headers@.len(),
            p == pairs_of(resp.headers@),
            text@ == start + header_lines(p.take(i as int)),
        decreases resp.headers@.len() - i,
    {
        assert(p.take(i + 1).drop_last() =~= p.take(i as int));
        text.append(resp.headers[i].0.as_str());
        text.append(": ");
        text.append(resp.headers[i].1.as_str());
        text.append("\r\n");
        assert(text@ =~= start + header_lines(p.take(i + 1)));
        i += 1;
    }
    assert(p.take(resp.headers@.len() as int) =~= p);
    text.append("\r\n");
    assert(text@ =~= response_head(resp.status, if reason_of(resp.status) is Some { reason@ } else { Seq::empty() }, p));
    let t = text.as_str().as_bytes();
    let mut out = copy_bytes(t);
    assert(out@ == encode_utf8(text@));
    let mut j: usize = 0;
    let ghost head = out@;
    while j < body.len()
        invariant
            j <= body@.len(),
            out@ == head + body@.take(j as int),
        decreases body@.len() - j,
    {
        out.push(body[j]);
        assert(out@ =~= head + body@.take(j + 1));
        j += 1;
    }
    assert(body@.take(body@.len() as int) =~= body@);
    assert(out@ == encode_utf8(text@) + body@);
    Ok(out)
}

} // verus!
