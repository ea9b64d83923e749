//! The calls into outside crates and into parts of std that carry no
//! specification, each with the contract the rest of the library relies on.
use vstd::prelude::*;
use vstd::utf8::*;
use vstd::string::StringSliceAdditionalSpecFns;
use base64::Engine;
use std::io::Read;
use crate::structs::{pairs_of, header_map, keys_unique};

verus! {

/// The standard, padded base64 text of a byte sequence.
pub uninterp spec fn base64_of(b: Seq<u8>) -> Seq<char>;

/// The bytes a text denotes in standard, padded base64, if it is such a text.
pub uninterp spec fn base64_decode_of(s: Seq<char>) -> Option<Seq<u8>>;

/// The JSON text of an object mapping strings to strings.
pub uninterp spec fn json_text_of(m: Map<Seq<char>, Seq<char>>) -> Seq<char>;

/// The entries of a text read as a JSON object of strings, if it is one.
pub uninterp spec fn json_object_of(s: Seq<char>) -> Option<Seq<(Seq<char>, Seq<char>)>>;

/// The normalised (lower-case) form of a header name, if the bytes form one.
pub uninterp spec fn header_name_of(b: Seq<u8>) -> Option<Seq<char>>;

/// Whether a text parses as an absolute URL.
pub uninterp spec fn url_parses(s: Seq<char>) -> bool;

/// The bytes a gzip stream inflates to, if it is a well-formed one.
pub uninterp spec fn gunzip_of(b: Seq<u8>) -> Option<Seq<u8>>;

/// The bytes a raw deflate stream inflates to, if it is a well-formed one.
pub uninterp spec fn inflate_of(b: Seq<u8>) -> Option<Seq<u8>>;

/// The method, target and headers of a complete request head, read with room
/// for at most `max_headers` headers; none for a partial or malformed head.
pub uninterp spec fn request_head_of(b: Seq<u8>, max_headers: usize) -> Option<
    (Seq<char>, Seq<char>, Seq<(Seq<char>, Seq<u8>)>),
>;

/// The text of bytes read as UTF-8, each malformed sequence replaced by U+FFFD.
pub uninterp spec fn lossy_text_of(b: Seq<u8>) -> Seq<char>;

/// The canonical reason phrase of a status code, if it has one.
pub uninterp spec fn reason_of(code: u16) -> Option<Seq<char>>;

/// The view of a parsed request head.
pub open spec fn head_view(h: (String, String, Vec<(String, Vec<u8>)>)) -> (
    Seq<char>,
    Seq<char>,
    Seq<(Seq<char>, Seq<u8>)>,
) {
    (h.0@, h.1@, h.2@.map_values(|e: (String, Vec<u8>)| (e.0@, e.1@)))
}

/// Read entries that name each header once and denote the mapping `m`.
pub open spec fn reads_as(o: Option<Seq<(Seq<char>, Seq<char>)>>, m: Map<Seq<char>, Seq<char>>) -> bool {
    o matches Some(p) && header_map(p) == m && keys_unique(p)
}

/// A byte that may stand in a header value.
pub open spec fn header_value_byte(b: u8) -> bool {
    (b >= 32 && b != 127) || b == 9
}

/// Bytes that form a legal header value.
pub open spec fn valid_header_value(b: Seq<u8>) -> bool {
    forall|i: int| 0 <= i < b.len() ==> header_value_byte(#[trigger] b[i])
}

/// Relies on base64's `STANDARD.encode`: the padded text of the bytes, which
/// `STANDARD.decode` turns back into the same bytes.
#[verifier::external_body]
pub(crate) fn base64_encode(b: &[u8]) -> (r: String)
    ensures
        r@ == base64_of(b@),
        base64_decode_of(r@) == Some(b@),
{
    base64::engine::general_purpose::STANDARD.encode(b)
}

/// Relies on base64's `STANDARD.decode`: the bytes of a padded base64 text,
/// or an error.
#[verifier::external_body]
pub(crate) fn base64_decode(s: &str) -> (r: Option<Vec<u8>>)
    ensures
        match r {
            Some(v) => base64_decode_of(s@) == Some(v@),
            None => base64_decode_of(s@) is None,
        },
{
    base64::engine::general_purpose::STANDARD.decode(s).ok()
}

/// Relies on `String::from_utf8`: it succeeds exactly on valid UTF-8 and then
/// holds the characters that the bytes encode.
#[verifier::external_body]
pub(crate) fn utf8_text(b: Vec<u8>) -> (r: Option<String>)
    ensures
        r is Some <==> valid_utf8(b@),
        r matches Some(s) ==> s@ == decode_utf8(b@),
{
    String::from_utf8(b).ok()
}

/// Relies on serde_json's `to_string` on a `BTreeMap<String, String>` built
/// from a list that names each header once: the JSON object of the mapping
/// the list denotes, which `from_str` reads back.
#[verifier::external_body]
pub(crate) fn json_object_text(h: &Vec<(String, String)>) -> (r: String)
    requires
        keys_unique(pairs_of(h@)),
    ensures
        r@ == json_text_of(header_map(pairs_of(h@))),
        reads_as(json_object_of(r@), header_map(pairs_of(h@))),
{
    let m: std::collections::BTreeMap<String, String> = h.iter().cloned().collect();
    serde_json::to_string(&m).unwrap_or_default()
}

/// Relies on serde_json's `from_str` into a `BTreeMap<String, String>`: the
/// entries of a JSON object of strings, each name once.
#[verifier::external_body]
pub(crate) fn json_object_entries(s: &str) -> (r: Option<Vec<(String, String)>>)
    ensures
        match r {
            Some(v) => json_object_of(s@) == Some(pairs_of(v@)) && keys_unique(pairs_of(v@)),
            None => json_object_of(s@) is None,
        },
{
    serde_json::from_str::<std::collections::BTreeMap<String, String>>(s).ok().map(
        |m| m.into_iter().collect(),
    )
}

/// Relies on http's `HeaderName::from_bytes` and `HeaderName::as_str`: the
/// normalised name, or an error for bytes that form none.
#[verifier::external_body]
pub(crate) fn header_name(b: &[u8]) -> (r: Option<String>)
    ensures
        match r {
            Some(n) => header_name_of(b@) == Some(n@),
            None => header_name_of(b@) is None,
        },
{
    http::header::HeaderName::from_bytes(b).ok().map(|n| n.as_str().to_string())
}

/// Relies on http's `HeaderValue::from_str`: it accepts exactly the texts
/// whose bytes are all visible, space, tab or above 127, and not DEL.
#[verifier::external_body]
pub(crate) fn header_value_ok(s: &str) -> (r: bool)
    ensures
        r == valid_header_value(s.spec_bytes()),
{
    http::header::HeaderValue::from_str(s).is_ok()
}

/// Relies on httparse's `Request::parse`: the method, target and headers of
/// a complete head, or none for a partial or malformed one or one with more
/// than `max_headers` headers.
#[verifier::external_body]
pub(crate) fn parse_request_head(b: &[u8], max_headers: usize) -> (r: Option<
    (String, String, Vec<(String, Vec<u8>)>),
>)
    ensures
        match r {
            Some(h) => request_head_of(b@, max_headers) == Some(head_view(h)),
            None => request_head_of(b@, max_headers) is None,
        },
{
    let mut slots = vec![httparse::EMPTY_HEADER; max_headers];
    let mut req = httparse::Request::new(&mut slots);
    match req.parse(b) {
        Ok(httparse::Status::Complete(_)) => Some((
            req.method.unwrap_or_default().to_string(),
            req.path.unwrap_or_default().to_string(),
            req.headers.iter().map(|h| (h.name.to_string(), h.value.to_vec())).collect(),
        )),
        _ => None,
    }
}

/// Relies on `String::from_utf8_lossy`: the text of the bytes, which is the
/// decoded text when they are valid UTF-8.
#[verifier::external_body]
pub(crate) fn lossy_text(b: &[u8]) -> (r: String)
    ensures
        r@ == lossy_text_of(b@),
        valid_utf8(b@) ==> r@ == decode_utf8(b@),
{
    String::from_utf8_lossy(b).into_owned()
}

/// Relies on http's `StatusCode::from_u16`: it accepts the codes from 100 to
/// 999.
#[verifier::external_body]
pub(crate) fn status_code_ok(code: u16) -> (r: bool)
    ensures
        r == (100 <= code && code <= 999),
{
    http::StatusCode::from_u16(code).is_ok()
}

/// Relies on http's `StatusCode::canonical_reason`: the reason phrase of a
/// code, if it has one.
#[verifier::external_body]
pub(crate) fn canonical_reason(code: u16) -> (r: Option<String>)
    ensures
        match r {
            Some(s) => reason_of(code) == Some(s@),
            None => reason_of(code) is None,
        },
{
    http::StatusCode::from_u16(code).ok().and_then(|c| c.canonical_reason()).map(|s| s.to_string())
}

/// Relies on url's `Url::parse`: whether the text is an absolute URL.
#[verifier::external_body]
pub(crate) fn url_ok(s: &str) -> (r: bool)
    ensures
        r == url_parses(s@),
{
    url::Url::parse(s).is_ok()
}

/// Relies on flate2's `GzDecoder`, read to the end: the inflated bytes, or
/// an error for a malformed stream.
#[verifier::external_body]
pub(crate) fn gunzip(b: &[u8]) -> (r: Option<Vec<u8>>)
    ensures
        match r {
            Some(d) => gunzip_of(b@) == Some(d@),
            None => gunzip_of(b@) is None,
        },
{
    let mut out: Vec<u8> = Vec::new();
    flate2::read::GzDecoder::new(b).read_to_end(&mut out).ok().map(|_| out)
}

/// Relies on flate2's `DeflateDecoder`, read to the end: the inflated bytes,
/// or an error for a malformed stream.
#[verifier::external_body]
pub(crate) fn inflate(b: &[u8]) -> (r: Option<Vec<u8>>)
    ensures
        match r {
            Some(d) => inflate_of(b@) == Some(d@),
            None => inflate_of(b@) is None,
        },
{
    let mut out: Vec<u8> = Vec::new();
    flate2::read::DeflateDecoder::new(b).read_to_end(&mut out).ok().map(|_| out)
}

} // verus!
