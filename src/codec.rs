//! The request envelope and its binary-safe wire form.
use vstd::prelude::*;
use vstd::utf8::*;
use vstd::string::StringSliceAdditionalSpecFns;
use crate::outside::{
    base64_decode, base64_decode_of, base64_encode, base64_of, header_name, header_name_of,
    header_value_ok, json_object_entries, json_object_of, json_object_text, json_text_of,
    utf8_text, valid_header_value,
};
use crate::headers::merge_headers;
use crate::structs::{header_map, keys_unique, pairs_of, ProxyRequest};

verus! {

broadcast use {encode_utf8_decode_utf8, encode_utf8_valid_utf8};

/// A request as the relay is asked to perform it.
pub struct RequestEnvelope {
    /// The target URL.
    pub target: String,
    /// The method token.
    pub method: String,
    /// Header entries; a later entry for a name replaces an earlier one.
    pub headers: Vec<(String, String)>,
    /// The raw body.
    pub body: Vec<u8>,
}

/// What a request envelope denotes.
pub struct EnvelopeView {
    pub target: Seq<char>,
    pub method: Seq<char>,
    pub headers: Map<Seq<char>, Seq<char>>,
    pub body: Seq<u8>,
}

impl View for RequestEnvelope {
    type V = EnvelopeView;

    open spec fn view(&self) -> EnvelopeView {
        EnvelopeView {
            target: self.target@,
            method: self.method@,
            headers: header_map(pairs_of(self.headers@)),
            body: self.body@,
        }
    }
}

/// The envelope field in which decoding failed.
#[derive(Clone, Copy, Debug, PartialEq, Eq, Structural)]
pub enum Field {
    Target,
    Headers,
    Body,
}

/// Why a wire-form request could not be decoded.
#[derive(Clone, Copy, Debug, PartialEq, Eq, Structural)]
pub enum DecodeError {
    /// The field is not padded standard base64.
    Base64(Field),
    /// The field's bytes are not UTF-8.
    Utf8(Field),
    /// The header blob is not a JSON object of strings.
    Json,
}

/// A header name and value that survive decoding unchanged.
pub open spec fn legal_header(name: Seq<char>, value: Seq<char>) -> bool {
    header_name_of(encode_utf8(name)) == Some(name) && valid_header_value(encode_utf8(value))
}

/// Every entry of a mapping is a legal header.
pub open spec fn legal_map(m: Map<Seq<char>, Seq<char>>) -> bool {
    forall|k: Seq<char>| #[trigger] m.contains_key(k) ==> legal_header(k, m[k])
}

/// The headers kept from decoded entries: illegal ones are dropped and names
/// are normalised; a later entry for a name wins.
pub open spec fn valid_headers(p: Seq<(Seq<char>, Seq<char>)>) -> Map<Seq<char>, Seq<char>>
    decreases p.len(),
{
    if p.len() == 0 {
        Map::empty()
    } else {
        let rest = valid_headers(p.drop_last());
        let (k, v) = p.last();
        match header_name_of(encode_utf8(k)) {
            Some(n) => if valid_header_value(encode_utf8(v)) {
                rest.insert(n, v)
            } else {
                rest
            },
            None => rest,
        }
    }
}

/// The text a base64 field carries, or why it carries none.
pub open spec fn base64_text(s: Seq<char>, f: Field) -> Result<Seq<char>, DecodeError> {
    match base64_decode_of(s) {
        Some(b) => if valid_utf8(b) {
            Ok(decode_utf8(b))
        } else {
            Err(DecodeError::Utf8(f))
        },
        None => Err(DecodeError::Base64(f)),
    }
}

/// The headers a base64 field carries, or why it carries none.
pub open spec fn base64_headers(s: Seq<char>) -> Result<Map<Seq<char>, Seq<char>>, DecodeError> {
    match base64_text(s, Field::Headers) {
        Ok(t) => match json_object_of(t) {
            Some(p) => Ok(valid_headers(p)),
            None => Err(DecodeError::Json),
        },
        Err(e) => Err(e),
    }
}

/// The body a wire field carries: absent means empty.
pub open spec fn base64_body(b: Option<String>) -> Result<Seq<u8>, DecodeError> {
    match b {
        None => Ok(Seq::empty()),
        Some(s) => match base64_decode_of(s@) {
            Some(bytes) => Ok(bytes),
            None => Err(DecodeError::Base64(Field::Body)),
        },
    }
}

/// The envelope a wire-form request denotes; the fields are read in the order
/// target, headers, body, and the first failure is reported.
pub open spec fn decoded(w: ProxyRequest) -> Result<EnvelopeView, DecodeError> {
    match base64_text(w.target@, Field::Target) {
        Err(e) => Err(e),
        Ok(target) => match base64_headers(w.headers@) {
            Err(e) => Err(e),
            Ok(headers) => match base64_body(w.body) {
                Err(e) => Err(e),
                Ok(body) => Ok(EnvelopeView { target, method: w.method@, headers, body }),
            },
        },
    }
}

/// An envelope each of whose header entries is legal.
pub open spec fn legal_envelope(e: RequestEnvelope) -> bool {
    forall|i: int| 0 <= i < e.headers@.len() ==> legal_header(
        #[trigger] e.headers@[i].0@,
        e.headers@[i].1@,
    )
}

/// `w` is the wire form of `e`: the target, the JSON object of the headers
/// and the body each as base64, the method as it is.
pub open spec fn wire_of(e: RequestEnvelope, w: ProxyRequest) -> bool {
    &&& w.target@ == base64_of(encode_utf8(e.target@))
    &&& w.method@ == e.method@
    &&& w.headers@ == base64_of(encode_utf8(json_text_of(header_map(pairs_of(e.headers@)))))
    &&& w.body matches Some(b) && b@ == base64_of(e.body@)
}

/// The mapping of a list whose entries are all legal is legal.
proof fn lemma_legal_map(s: Seq<(Seq<char>, Seq<char>)>)
    requires
        forall|i: int| 0 <= i < s.len() ==> legal_header(#[trigger] s[i].0, s[i].1),
    ensures
        legal_map(header_map(s)),
    decreases s.len(),
{
    if s.len() > 0 {
        let t = s.drop_last();
        assert forall|i: int| 0 <= i < t.len() implies legal_header(#[trigger] t[i].0, t[i].1) by {
            assert(t[i] == s[i]);
        }
        lemma_legal_map(t);
        assert(legal_header(s[s.len() - 1].0, s[s.len() - 1].1));
    }
}

/// A name that no entry of a list carries is not in its mapping.
proof fn lemma_absent_name(s: Seq<(Seq<char>, Seq<char>)>, k: Seq<char>)
    requires
        forall|i: int| 0 <= i < s.len() ==> #[trigger] s[i].0 != k,
    ensures
        !header_map(s).contains_key(k),
    decreases s.len(),
{
    if s.len() > 0 {
        let t = s.drop_last();
        assert forall|i: int| 0 <= i < t.len() implies #[trigger] t[i].0 != k by {
            assert(t[i] == s[i]);
        }
        lemma_absent_name(t, k);
        assert(s[s.len() - 1].0 != k);
    }
}

/// Decoding keeps every entry of a legal, duplicate-free list unchanged.
proof fn lemma_valid_headers_legal(p: Seq<(Seq<char>, Seq<char>)>)
    requires
        keys_unique(p),
        legal_map(header_map(p)),
    ensures
        valid_headers(p) == header_map(p),
    decreases p.len(),
{
    if p.len() > 0 {
        let t = p.drop_last();
        let (k, v) = p.last();
        assert forall|i: int| 0 <= i < t.len() implies #[trigger] t[i].0 != k by {
            assert(t[i] == p[i]);
            assert(p[i].0 != p[p.len() - 1].0);
        }
        lemma_absent_name(t, k);
        assert(keys_unique(t)) by {
            assert forall|i: int, j: int|
                0 <= i < t.len() && 0 <= j < t.len() && i != j implies t[i].0 != t[j].0 by {
                assert(t[i] == p[i] && t[j] == p[j]);
            }
        }
        assert forall|n: Seq<char>| #[trigger] header_map(t).contains_key(n) implies legal_header(
            n,
            header_map(t)[n],
        ) by {
            assert(n != k);
            assert(header_map(p).contains_key(n));
        }
        lemma_valid_headers_legal(t);
        assert(header_map(p).contains_key(k));
        assert(legal_header(k, v));
    }
}

/// Encodes an envelope into its wire form: the target, the JSON object of its
/// headers and its body each as base64, the method as it is. Decoding the
/// result gives back the envelope whenever all of its headers are legal.
pub fn encode_request(e: &RequestEnvelope) -> (r: ProxyRequest)
    ensures
        wire_of(*e, r),
        decoded(r) matches Ok(v) && v.target == e.target@ && v.method == e.method@ && v.body
            == e.body@,
        legal_envelope(*e) ==> decoded(r) == Ok::<EnvelopeView, DecodeError>(e@),
{
    let target = base64_encode(e.target.as_str().as_bytes());
    let merged = merge_headers(&e.headers);
    let json = json_object_text(&merged);
    let headers = base64_encode(json.as_str().as_bytes());
    let body = base64_encode(e.body.as_slice());
    let r = ProxyRequest { target, method: e.method.clone(), headers, body: Some(body) };
    proof {
        if legal_envelope(*e) {
            let s = pairs_of(e.headers@);
            assert forall|i: int| 0 <= i < s.len() implies legal_header(
                #[trigger] s[i].0,
                s[i].1,
            ) by {
                assert(legal_header(e.headers@[i].0@, e.headers@[i].1@));
            }
            lemma_legal_map(s);
            let p = json_object_of(json@)->0;
            lemma_valid_headers_legal(p);
        }
    }
    r
}

/// Decodes a wire-form request into an envelope. Header entries whose name
/// or value is not legal are dropped; the rest are kept with their names
/// normalised.
pub fn decode_request(w: &ProxyRequest) -> (r: Result<RequestEnvelope, DecodeError>)
    ensures
        match r {
            Ok(e) => decoded(*w) == Ok::<EnvelopeView, DecodeError>(e@),
            Err(x) => decoded(*w) == Err::<EnvelopeView, DecodeError>(x),
        },
{
    let target = match decode_text(w.target.as_str(), Field::Target) {
        Ok(t) => t,
        Err(x) => return Err(x),
    };
    let headers = match decode_headers(w.headers.as_str()) {
        Ok(h) => h,
        Err(x) => return Err(x),
    };
    let body = match &w.body {
        None => Vec::new(),
        Some(s) => match base64_decode(s.as_str()) {
            Some(b) => b,
            None => return Err(DecodeError::Base64(Field::Body)),
        },
    };
    let e = RequestEnvelope { target, method: w.method.clone(), headers, body };
    assert(e@.body =~= base64_body(w.body)->Ok_0);
    Ok(e)
}

/// Reads a base64 field that carries UTF-8 text.
fn decode_text(s: &str, f: Field) -> (r: Result<String, DecodeError>)
    ensures
        match r {
            Ok(t) => base64_text(s@, f) == Ok::<Seq<char>, DecodeError>(t@),
            Err(x) => base64_text(s@, f) == Err::<Seq<char>, DecodeError>(x),
        },
{
    match base64_decode(s) {
        None => Err(DecodeError::Base64(f)),
        Some(b) => match utf8_text(b) {
            Some(t) => Ok(t),
            None => Err(DecodeError::Utf8(f)),
        },
    }
}

/// Reads the header field: base64 of a JSON object of strings, keeping the
/// legal entries.
fn decode_headers(s: &str) -> (r: Result<Vec<(String, String)>, DecodeError>)
    ensures
        match r {
            Ok(h) => base64_headers(s@) == Ok::<Map<Seq<char>, Seq<char>>, DecodeError>(
                header_map(pairs_of(h@)),
            ),
            Err(x) => base64_headers(s@) == Err::<Map<Seq<char>, Seq<char>>, DecodeError>(x),
        },
{
    let text = match decode_text(s, Field::Headers) {
        Ok(t) => t,
        Err(x) => return Err(x),
    };
    let entries = match json_object_entries(text.as_str()) {
        Some(p) => p,
        None => return Err(DecodeError::Json),
    };
    let ghost p = pairs_of(entries@);
    let mut out: Vec<(String, String)> = Vec::new();
    let mut i: usize = 0;
    while i < entries.len()
        invariant
            i <= entries@.len(),
            p == pairs_of(entries@),
            header_map(pairs_of(out@)) == valid_headers(p.take(i as int)),
        decreases entries@.len() - i,
    {
        let (k, v) = (&entries[i].0, &entries[i].1);
        assert(p.take(i + 1).drop_last() =~= p.take(i as int));
        let ghost before = out@;
        match header_name(k.as_str().as_bytes()) {
            Some(n) => {
                if header_value_ok(v.as_str()) {
                    out.push((n, v.clone()));
                    assert(pairs_of(out@).drop_last() =~= pairs_of(before));
                }
            },
            None => {},
        }
        i += 1;
    }
    assert(p.take(entries@.len() as int) =~= p);
    Ok(out)
}

} // verus!
