use base64::engine::general_purpose::STANDARD;
use base64::Engine;
use masquerade::codec::{decode_request, encode_request, DecodeError, Field, RequestEnvelope};
use masquerade::structs::ProxyRequest;

fn envelope(method: &str, headers: &[(&str, &str)], body: &[u8]) -> RequestEnvelope {
    RequestEnvelope {
        target: "http://example.com/a?b=c".to_string(),
        method: method.to_string(),
        headers: headers.iter().map(|(k, v)| (k.to_string(), v.to_string())).collect(),
        body: body.to_vec(),
    }
}

fn sorted(mut h: Vec<(String, String)>) -> Vec<(String, String)> {
    h.sort();
    h
}

fn wire(target: &str, method: &str, headers: &str, body: Option<&str>) -> ProxyRequest {
    ProxyRequest {
        target: target.to_string(),
        method: method.to_string(),
        headers: headers.to_string(),
        body: body.map(|b| b.to_string()),
    }
}

#[test]
fn round_trip_each_method_with_binary_body() {
    for m in ["GET", "POST", "PUT", "DELETE"] {
        let e = envelope(m, &[("x-test", "1"), ("accept", "a/b; q=0.5 & more")], &[0, 255, 128, 10, 13]);
        let w = encode_request(&e);
        let d = decode_request(&w).unwrap();
        assert_eq!(d.target, e.target);
        assert_eq!(d.method, m);
        assert_eq!(d.body, e.body);
        assert_eq!(sorted(d.headers), sorted(e.headers.clone()));
    }
}

#[test]
fn round_trip_empty_body_and_no_headers() {
    let e = envelope("GET", &[], &[]);
    let w = encode_request(&e);
    assert_eq!(w.body.as_deref(), Some(""));
    let d = decode_request(&w).unwrap();
    assert!(d.headers.is_empty());
    assert!(d.body.is_empty());
    assert_eq!(d.target, e.target);
}

#[test]
fn encode_uses_standard_base64_and_json() {
    let e = envelope("POST", &[("a", "1")], b"hi");
    let w = encode_request(&e);
    assert_eq!(w.target, STANDARD.encode("http://example.com/a?b=c"));
    assert_eq!(w.headers, STANDARD.encode("{\"a\":\"1\"}"));
    assert_eq!(w.body.as_deref(), Some("aGk="));
    assert_eq!(w.method, "POST");
}

#[test]
fn later_duplicate_header_wins() {
    let e = envelope("GET", &[("a", "1"), ("a", "2")], b"");
    let d = decode_request(&encode_request(&e)).unwrap();
    assert_eq!(d.headers, vec![("a".to_string(), "2".to_string())]);
}

#[test]
fn header_names_are_normalised_and_illegal_entries_dropped() {
    let json = "{\"X-Mixed\":\"v\",\"bad name\":\"1\",\"ok\":\"line\\nbreak\"}";
    let w = wire(&STANDARD.encode("http://h/"), "GET", &STANDARD.encode(json), None);
    let d = decode_request(&w).unwrap();
    assert_eq!(d.headers, vec![("x-mixed".to_string(), "v".to_string())]);
    assert!(d.body.is_empty());
}

#[test]
fn decode_rejects_bad_target_base64() {
    let w = wire("%%%invalid-base64%%%", "GET", &STANDARD.encode("{}"), None);
    assert_eq!(decode_request(&w).err(), Some(DecodeError::Base64(Field::Target)));
}

#[test]
fn decode_rejects_non_utf8_target() {
    let w = wire(&STANDARD.encode([0xffu8, 0xfe]), "GET", &STANDARD.encode("{}"), None);
    assert_eq!(decode_request(&w).err(), Some(DecodeError::Utf8(Field::Target)));
}

#[test]
fn decode_rejects_non_json_headers() {
    let w = wire(&STANDARD.encode("http://h/"), "GET", &STANDARD.encode("[1,2]"), None);
    assert_eq!(decode_request(&w).err(), Some(DecodeError::Json));
}

#[test]
fn decode_rejects_bad_header_base64() {
    let w = wire(&STANDARD.encode("http://h/"), "GET", "***", None);
    assert_eq!(decode_request(&w).err(), Some(DecodeError::Base64(Field::Headers)));
}

#[test]
fn decode_rejects_bad_body_base64() {
    let w = wire(&STANDARD.encode("http://h/"), "GET", &STANDARD.encode("{}"), Some("a"));
    assert_eq!(decode_request(&w).err(), Some(DecodeError::Base64(Field::Body)));
}
