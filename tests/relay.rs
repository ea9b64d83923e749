use base64::engine::general_purpose::STANDARD;
use base64::Engine;
use flate2::write::{DeflateEncoder, GzEncoder};
use flate2::Compression;
use masquerade::codec::{DecodeError, Field};
use masquerade::relay::{
    finish, normalize, parse_method, prepare, reject, Method, OriginResponse, Outcome, Rejection,
    MAX_BODY_SIZE,
};
use masquerade::structs::{ProxyRequest, ProxyResponse};
use std::io::Write;

fn wire(target: &str, method: &str, headers: &str, body: &str) -> ProxyRequest {
    ProxyRequest {
        target: STANDARD.encode(target),
        method: method.to_string(),
        headers: STANDARD.encode(headers),
        body: Some(STANDARD.encode(body)),
    }
}

fn gzip(b: &[u8]) -> Vec<u8> {
    let mut e = GzEncoder::new(Vec::new(), Compression::default());
    e.write_all(b).unwrap();
    e.finish().unwrap()
}

fn deflate(b: &[u8]) -> Vec<u8> {
    let mut e = DeflateEncoder::new(Vec::new(), Compression::default());
    e.write_all(b).unwrap();
    e.finish().unwrap()
}

fn header<'a>(r: &'a ProxyResponse, name: &str) -> Option<&'a str> {
    r.headers.iter().rev().find(|(k, _)| k == name).map(|(_, v)| v.as_str())
}

fn body_text(r: &ProxyResponse) -> String {
    String::from_utf8(STANDARD.decode(&r.body).unwrap()).unwrap()
}

fn origin(headers: &[(&str, &str)], body: Vec<u8>) -> OriginResponse {
    OriginResponse {
        status: 200,
        headers: headers.iter().map(|(k, v)| (k.to_string(), v.to_string())).collect(),
        body,
    }
}

#[test]
fn methods_are_recognised_exactly() {
    assert_eq!(parse_method(&"GET".to_string()), Some(Method::Get));
    assert_eq!(parse_method(&"POST".to_string()), Some(Method::Post));
    assert_eq!(parse_method(&"PUT".to_string()), Some(Method::Put));
    assert_eq!(parse_method(&"DELETE".to_string()), Some(Method::Delete));
    assert_eq!(parse_method(&"get".to_string()), None);
    assert_eq!(parse_method(&"PATCH".to_string()), None);
}

#[test]
fn malformed_target_gives_400() {
    let mut w = wire("http://h/", "GET", "{}", "");
    w.target = "%%%invalid-base64%%%".to_string();
    let x = prepare(&w).err().unwrap();
    assert!(matches!(x, Rejection::Decode(DecodeError::Base64(Field::Target))));
    let r = reject(&x);
    assert_eq!(r.status, 400);
    assert!(r.headers.is_empty());
    assert_eq!(body_text(&r), "Invalid target URL encoding");
}

#[test]
fn patch_is_rejected_before_any_call() {
    let w = wire("http://example.com/", "PATCH", "{}", "");
    let x = prepare(&w).err().unwrap();
    assert!(matches!(&x, Rejection::UnsupportedMethod(m) if m == "PATCH"));
    let r = reject(&x);
    assert_eq!(r.status, 400);
    assert_eq!(body_text(&r), "Unsupported method: PATCH");
}

#[test]
fn relative_target_is_rejected() {
    let w = wire("/just/a/path", "GET", "{}", "");
    let x = prepare(&w).err().unwrap();
    let r = reject(&x);
    assert_eq!(r.status, 400);
    assert_eq!(body_text(&r), "Invalid target URL: /just/a/path");
}

#[test]
fn bad_header_blob_gives_400() {
    let w = wire("http://example.com/", "GET", "not json", "");
    let x = prepare(&w).err().unwrap();
    assert!(matches!(x, Rejection::Decode(DecodeError::Json)));
    assert_eq!(body_text(&reject(&x)), "Invalid headers encoding");
}

#[test]
fn hop_headers_are_stripped_and_cache_disabled() {
    let w = wire(
        "http://example.com/x",
        "GET",
        "{\"Host\":\"a\",\"Connection\":\"close\",\"Cache-Control\":\"max-age=9\",\"X-Test\":\"1\"}",
        "ignored",
    );
    let o = prepare(&w).ok().unwrap();
    assert_eq!(o.method, Method::Get);
    assert_eq!(o.url, "http://example.com/x");
    assert!(o.body.is_none());
    let mut h = o.headers.clone();
    h.sort();
    assert_eq!(
        h,
        vec![
            ("cache-control".to_string(), "no-cache".to_string()),
            ("x-test".to_string(), "1".to_string())
        ]
    );
}

#[test]
fn body_is_attached_for_post_and_put_only() {
    for (m, expect) in [("POST", true), ("PUT", true), ("DELETE", false), ("GET", false)] {
        let o = prepare(&wire("http://example.com/", m, "{}", "payload")).ok().unwrap();
        assert_eq!(o.body.is_some(), expect);
        if expect {
            assert_eq!(o.body.unwrap(), b"payload".to_vec());
        }
    }
}

#[test]
fn gzip_body_is_inflated_and_encoding_removed() {
    let resp = origin(
        &[("content-encoding", "gzip"), ("transfer-encoding", "chunked"), ("x-a", "b")],
        gzip(b"hello world"),
    );
    let r = normalize(&resp);
    assert_eq!(r.status, 200);
    assert_eq!(body_text(&r), "hello world");
    assert_eq!(header(&r, "content-encoding"), None);
    assert_eq!(header(&r, "transfer-encoding"), None);
    assert_eq!(header(&r, "content-length"), Some("11"));
    assert_eq!(header(&r, "x-a"), Some("b"));
}

#[test]
fn deflate_body_is_inflated() {
    let r = normalize(&origin(&[("content-encoding", "deflate")], deflate(b"abc")));
    assert_eq!(body_text(&r), "abc");
    assert_eq!(header(&r, "content-encoding"), None);
    assert_eq!(header(&r, "content-length"), Some("3"));
}

#[test]
fn other_encodings_pass_through() {
    let r = normalize(&origin(&[("content-encoding", "br"), ("content-length", "99")], b"raw".to_vec()));
    assert_eq!(STANDARD.decode(&r.body).unwrap(), b"raw".to_vec());
    assert_eq!(header(&r, "content-length"), Some("3"));
    assert_eq!(header(&r, "content-encoding"), None);
}

#[test]
fn empty_body_has_zero_length() {
    let r = normalize(&origin(&[], Vec::new()));
    assert_eq!(r.body, "");
    assert_eq!(header(&r, "content-length"), Some("0"));
}

#[test]
fn corrupt_gzip_gives_500() {
    let r = normalize(&origin(&[("content-encoding", "gzip")], b"not gzip".to_vec()));
    assert_eq!(r.status, 500);
    assert_eq!(body_text(&r), "Decompression failed");
}

#[test]
fn oversized_body_gives_500() {
    let r = normalize(&origin(&[], vec![b'a'; MAX_BODY_SIZE + 1]));
    assert_eq!(r.status, 500);
    assert_eq!(body_text(&r), "Response body too large");
    let ok = normalize(&origin(&[], vec![b'a'; MAX_BODY_SIZE]));
    assert_eq!(ok.status, 200);
    assert_eq!(header(&ok, "content-length"), Some("10485760"));
}

#[test]
fn origin_status_is_kept() {
    let mut resp = origin(&[], b"gone".to_vec());
    resp.status = 404;
    assert_eq!(normalize(&resp).status, 404);
}

#[test]
fn timeout_gives_504() {
    let r = finish(&Outcome::TimedOut);
    assert_eq!(r.status, 504);
    assert_eq!(body_text(&r), "Request timed out");
}

#[test]
fn transport_failure_gives_500_with_text() {
    let r = finish(&Outcome::Failed("connection refused".to_string()));
    assert_eq!(r.status, 500);
    assert_eq!(body_text(&r), "Request failed: connection refused");
}

#[test]
fn completed_outcome_is_normalised() {
    let r = finish(&Outcome::Completed(origin(&[("content-encoding", "gzip")], gzip(b"zz"))));
    assert_eq!(r.status, 200);
    assert_eq!(body_text(&r), "zz");
}

#[test]
fn encoding_headers_are_found_and_removed_in_any_case() {
    let resp = origin(
        &[("Content-Encoding", "gzip"), ("Transfer-Encoding", "chunked"), ("Content-Length", "31")],
        gzip(b"hello"),
    );
    let r = normalize(&resp);
    assert_eq!(body_text(&r), "hello");
    assert_eq!(
        r.headers,
        vec![("content-length".to_string(), "5".to_string())]
    );
}
