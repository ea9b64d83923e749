use base64::engine::general_purpose::STANDARD;
use base64::Engine;
use flate2::write::GzEncoder;
use flate2::Compression;
use masquerade::head::{find_body_start, HeadBuffer, HeadProgress, MAX_HEAD_SIZE};
use masquerade::headers::{
    decimal_text, find_header, merge_headers, name_matches, parse_decimal, remove_header, set_header,
};
use masquerade::ingress::{
    bad_gateway, body_length, read_request, render_response, route, RenderError, Route,
};
use masquerade::relay::{finish, prepare, OriginResponse, Outcome};
use masquerade::structs::{Cli, ProxyResponse};
use masquerade::tunnel::{connection_established, split_authority, ByteCounter, TunnelSession};
use std::io::Write;

fn pairs(h: &[(&str, &str)]) -> Vec<(String, String)> {
    h.iter().map(|(k, v)| (k.to_string(), v.to_string())).collect()
}

#[test]
fn body_start_follows_blank_line() {
    assert_eq!(find_body_start(b"GET / HTTP/1.1\r\nA: b\r\n\r\nxyz"), Some(24));
    assert_eq!(find_body_start(b"\r\n\r\n"), Some(4));
    assert_eq!(find_body_start(b"GET / HTTP/1.1\r\n"), None);
    assert_eq!(find_body_start(b"ab"), None);
    assert_eq!(find_body_start(b""), None);
}

#[test]
fn head_accumulates_across_reads() {
    let mut h = HeadBuffer::new(MAX_HEAD_SIZE);
    assert_eq!(h.push(b"GET / HTTP/1.1\r\nHost: a\r"), HeadProgress::AwaitingHead);
    assert_eq!(h.push(b"\n\r"), HeadProgress::AwaitingHead);
    assert_eq!(h.push(b"\nbody"), HeadProgress::HaveHead(27));
    assert_eq!(h.bytes.len(), 31);
}

#[test]
fn oversized_head_is_refused() {
    let mut h = HeadBuffer::new(8);
    assert_eq!(h.push(b"GET / HT"), HeadProgress::AwaitingHead);
    assert_eq!(h.push(b"T"), HeadProgress::TooLarge);
    let mut g = HeadBuffer::new(8);
    assert_eq!(g.push(b"GET /\r\n\r\n"), HeadProgress::TooLarge);
}

#[test]
fn request_is_read_with_headers_and_body() {
    let buf = b"POST http://h/p HTTP/1.1\r\nX-A: 1\r\nX-B: \xff\r\n\r\nbody";
    let start = find_body_start(buf).unwrap();
    let q = read_request(buf, start).unwrap();
    assert_eq!(q.method, "POST");
    assert_eq!(q.target, "http://h/p");
    assert_eq!(q.headers, pairs(&[("X-A", "1"), ("X-B", "\u{fffd}")]));
    assert_eq!(q.body, b"body".to_vec());
}

#[test]
fn malformed_head_is_not_read() {
    let buf = b"NOT A REQUEST\r\n\r\n";
    assert!(read_request(buf, buf.len()).is_none());
}

#[test]
fn connect_is_tunnelled() {
    let buf = b"CONNECT example.com:443 HTTP/1.1\r\nHost: example.com:443\r\n\r\n";
    let q = read_request(buf, buf.len()).unwrap();
    match route(q) {
        Route::Tunnel(t) => assert_eq!(t, "example.com:443"),
        Route::Forward(_) => panic!("expected a tunnel"),
    }
}

#[test]
fn other_methods_are_forwarded_as_envelopes() {
    let buf = b"GET http://example.com/hello HTTP/1.1\r\nX-Test: 1\r\nX-Test: 2\r\n\r\n";
    let q = read_request(buf, buf.len()).unwrap();
    match route(q) {
        Route::Forward(w) => {
            assert_eq!(w.target, STANDARD.encode("http://example.com/hello"));
            assert_eq!(w.method, "GET");
            assert_eq!(w.headers, STANDARD.encode("{\"X-Test\":\"2\"}"));
            assert_eq!(w.body.as_deref(), Some(""));
        }
        Route::Tunnel(_) => panic!("expected an envelope"),
    }
}

#[test]
fn response_is_rendered_on_the_wire() {
    let r = ProxyResponse {
        status: 404,
        headers: pairs(&[("a", "1"), ("b", "2")]),
        body: STANDARD.encode([0u8, 1, 2]),
    };
    let mut expect = b"HTTP/1.1 404 Not Found\r\na: 1\r\nb: 2\r\n\r\n".to_vec();
    expect.extend_from_slice(&[0, 1, 2]);
    assert_eq!(render_response(&r), Ok(expect));
}

#[test]
fn unknown_reason_is_left_empty() {
    let r = ProxyResponse { status: 599, headers: Vec::new(), body: String::new() };
    assert_eq!(render_response(&r), Ok(b"HTTP/1.1 599 \r\n\r\n".to_vec()));
}

#[test]
fn bad_status_and_body_are_refused() {
    let r = ProxyResponse { status: 42, headers: Vec::new(), body: String::new() };
    assert_eq!(render_response(&r), Err(RenderError::InvalidStatus));
    let r = ProxyResponse { status: 200, headers: Vec::new(), body: "!!".to_string() };
    assert_eq!(render_response(&r), Err(RenderError::InvalidBody));
}

#[test]
fn fixed_replies() {
    assert_eq!(bad_gateway(), b"HTTP/1.1 502 Bad Gateway\r\n\r\n".to_vec());
    assert_eq!(connection_established(), b"HTTP/1.1 200 Connection Established\r\n\r\n".to_vec());
}

#[test]
fn tunnel_passes_bytes_unchanged_and_counts_them() {
    let mut s = TunnelSession::new();
    assert_eq!(s.client_to_origin.pass(b"hello"), b"hello".to_vec());
    assert_eq!(s.client_to_origin.pass(&[0, 255]), vec![0, 255]);
    assert_eq!(s.origin_to_client.pass(b"x"), b"x".to_vec());
    assert_eq!(s.client_to_origin.total(), 7);
    assert_eq!(s.origin_to_client.total(), 1);
    assert_eq!(ByteCounter::new().total(), 0);
}

#[test]
fn header_list_operations() {
    let mut h = pairs(&[("a", "1"), ("b", "2"), ("a", "3")]);
    assert_eq!(find_header(&h, "a"), Some("3".to_string()));
    assert_eq!(find_header(&h, "c"), None);
    remove_header(&mut h, "a");
    assert_eq!(h, pairs(&[("b", "2")]));
    set_header(&mut h, "b".to_string(), "9".to_string());
    assert_eq!(h, pairs(&[("b", "9")]));
}

#[test]
fn decimal_texts() {
    assert_eq!(decimal_text(0), "0");
    assert_eq!(decimal_text(7), "7");
    assert_eq!(decimal_text(10), "10");
    assert_eq!(decimal_text(10485760), "10485760");
}

#[test]
fn relay_port_defaults_to_3030() {
    assert_eq!(Cli::default().port, 3030);
}

#[test]
fn end_to_end_gzip_example() {
    let mut head = HeadBuffer::new(MAX_HEAD_SIZE);
    let start = match head.push(b"GET http://example.com/hello HTTP/1.1\r\nX-Test: 1\r\n\r\n") {
        HeadProgress::HaveHead(k) => k,
        _ => panic!("head incomplete"),
    };
    let q = read_request(&head.bytes, start).unwrap();
    let w = match route(q) {
        Route::Forward(w) => w,
        Route::Tunnel(_) => panic!("expected an envelope"),
    };
    let out = prepare(&w).ok().unwrap();
    assert_eq!(out.url, "http://example.com/hello");
    assert!(out.headers.contains(&("x-test".to_string(), "1".to_string())));
    let mut gz = GzEncoder::new(Vec::new(), Compression::default());
    gz.write_all(b"hello").unwrap();
    let origin = OriginResponse {
        status: 200,
        headers: pairs(&[("content-encoding", "gzip")]),
        body: gz.finish().unwrap(),
    };
    let resp = finish(&Outcome::Completed(origin));
    let bytes = render_response(&resp).unwrap();
    assert_eq!(bytes, b"HTTP/1.1 200 OK\r\ncontent-length: 5\r\n\r\nhello".to_vec());
}

#[test]
fn declared_body_length() {
    assert_eq!(body_length(&pairs(&[("Host", "a"), ("Content-Length", "42")])), Some(42));
    assert_eq!(body_length(&pairs(&[("content-LENGTH", "0")])), Some(0));
    assert_eq!(body_length(&pairs(&[("Content-Length", "1"), ("content-length", "7")])), Some(7));
    assert_eq!(body_length(&pairs(&[("Content-Length", "12x")])), None);
    assert_eq!(body_length(&pairs(&[("Content-Length", "")])), None);
    assert_eq!(body_length(&pairs(&[("Content-Length", "99999999999999999999999")])), None);
    assert_eq!(body_length(&pairs(&[("Content-Lengths", "1")])), None);
    assert_eq!(body_length(&pairs(&[])), None);
}

#[test]
fn connect_targets_split_into_host_and_port() {
    assert_eq!(split_authority("example.com:443"), Some(("example.com".to_string(), 443)));
    assert_eq!(split_authority("[::1]:8080"), Some(("[::1]".to_string(), 8080)));
    assert_eq!(split_authority("h:65535"), Some(("h".to_string(), 65535)));
    assert_eq!(split_authority("h:65536"), None);
    assert_eq!(split_authority("example.com"), None);
    assert_eq!(split_authority(":443"), None);
    assert_eq!(split_authority("h:"), None);
    assert_eq!(split_authority("h:4x3"), None);
}

#[test]
fn decimal_numbers_are_read() {
    assert_eq!(parse_decimal("0"), Some(0));
    assert_eq!(parse_decimal("0042"), Some(42));
    assert_eq!(parse_decimal("18446744073709551615"), Some(usize::MAX));
    assert_eq!(parse_decimal("18446744073709551616"), None);
    assert_eq!(parse_decimal("-1"), None);
    assert_eq!(parse_decimal(" 1"), None);
    assert_eq!(parse_decimal(""), None);
}

#[test]
fn header_names_match_ignoring_case() {
    assert!(name_matches("Content-Encoding", "content-encoding"));
    assert!(name_matches("HOST", "host"));
    assert!(!name_matches("hosts", "host"));
    assert!(!name_matches("h0st", "host"));
    let mut h = pairs(&[("Host", "a"), ("X-A", "1"), ("hOsT", "b")]);
    assert_eq!(find_header(&h, "host"), Some("b".to_string()));
    remove_header(&mut h, "host");
    assert_eq!(h, pairs(&[("X-A", "1")]));
    set_header(&mut h, "x-a".to_string(), "2".to_string());
    assert_eq!(h, pairs(&[("x-a", "2")]));
}

#[test]
fn merged_headers_name_each_once_with_last_value() {
    let h = pairs(&[("a", "1"), ("b", "2"), ("a", "3"), ("c", "4"), ("b", "5")]);
    assert_eq!(merge_headers(&h), pairs(&[("a", "3"), ("b", "5"), ("c", "4")]));
    assert!(merge_headers(&Vec::new()).is_empty());
}
