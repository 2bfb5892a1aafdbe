use rserver::ProxyError;
use rserver::Request;

#[test]
fn parse_simple_get() {
    let raw = b"GET / HTTP/1.1\r\nHost: localhost:9000\r\n\r\n".to_vec();
    let req = Request::parse(raw.clone()).unwrap();
    assert_eq!(req.method, "GET");
    assert_eq!(req.url_raw, "/");
    assert_eq!(req.version, "HTTP/1.1");
    assert_eq!(req.host, "localhost");
    assert_eq!(req.port, 9000);
    assert_eq!(req.raw_data, raw);
}

#[test]
fn parse_connect_authority_form() {
    let raw = b"CONNECT example.com:443 HTTP/1.1\r\nHost: example.com:443\r\n\r\n".to_vec();
    let req = Request::parse(raw).unwrap();
    assert_eq!(req.method, "CONNECT");
    assert_eq!(req.url_raw, "example.com:443");
    assert_eq!(req.version, "HTTP/1.1");
    assert_eq!(req.host, "example.com");
    assert_eq!(req.port, 443);
}

#[test]
fn parse_host_with_port() {
    let raw = b"GET /x HTTP/1.1\r\nHost: example.com:9443\r\n\r\n".to_vec();
    let req = Request::parse(raw).unwrap();
    assert_eq!(req.host, "example.com");
    assert_eq!(req.port, 9443);
}

#[test]
fn parse_host_default_port_get() {
    let raw = b"GET /x HTTP/1.1\r\nHost: example.com\r\n\r\n".to_vec();
    let req = Request::parse(raw).unwrap();
    assert_eq!(req.host, "example.com");
    assert_eq!(req.port, 80);
}

#[test]
fn parse_host_default_port_connect() {
    let raw = b"CONNECT example.com HTTP/1.1\r\nHost: example.com\r\n\r\n".to_vec();
    let req = Request::parse(raw).unwrap();
    assert_eq!(req.host, "example.com");
    assert_eq!(req.port, 443);
}

#[test]
fn parse_missing_host_is_malformed() {
    let raw = b"GET / HTTP/1.1\r\nAccept: */*\r\n\r\n".to_vec();
    let err = Request::parse(raw).unwrap_err();
    assert_eq!(err, ProxyError::MalformedRequest);
}

#[test]
fn parse_short_request_line_is_malformed() {
    let raw = b"GET /\r\nHost: example.com\r\n\r\n".to_vec();
    assert_eq!(Request::parse(raw).unwrap_err(), ProxyError::MalformedRequest);
}

#[test]
fn parse_long_request_line_is_malformed() {
    let raw = b"GET / HTTP/1.1 extra\r\nHost: example.com\r\n\r\n".to_vec();
    assert_eq!(Request::parse(raw).unwrap_err(), ProxyError::MalformedRequest);
}

#[test]
fn parse_empty_buffer_is_malformed() {
    assert_eq!(Request::parse(Vec::new()).unwrap_err(), ProxyError::MalformedRequest);
}

#[test]
fn parse_header_without_colon_is_malformed() {
    let raw = b"GET / HTTP/1.1\r\nHost example.com\r\n\r\n".to_vec();
    assert_eq!(Request::parse(raw).unwrap_err(), ProxyError::MalformedRequest);
}

#[test]
fn parse_bad_port_is_malformed() {
    let raw = b"GET / HTTP/1.1\r\nHost: example.com:http\r\n\r\n".to_vec();
    assert_eq!(Request::parse(raw).unwrap_err(), ProxyError::MalformedRequest);
}

#[test]
fn parse_empty_port_is_malformed() {
    let raw = b"GET / HTTP/1.1\r\nHost: example.com:\r\n\r\n".to_vec();
    assert_eq!(Request::parse(raw).unwrap_err(), ProxyError::MalformedRequest);
}

#[test]
fn parse_huge_port_is_malformed() {
    let raw = b"GET / HTTP/1.1\r\nHost: example.com:4294967296\r\n\r\n".to_vec();
    assert_eq!(Request::parse(raw).unwrap_err(), ProxyError::MalformedRequest);
}

#[test]
fn parse_port_at_i32_boundary() {
    let raw = b"GET / HTTP/1.1\r\nHost: example.com:2147483647\r\n\r\n".to_vec();
    let req = Request::parse(raw).unwrap();
    assert_eq!(req.port, 2147483647);
    let raw = b"GET / HTTP/1.1\r\nHost: example.com:2147483648\r\n\r\n".to_vec();
    assert_eq!(Request::parse(raw).err().unwrap(), ProxyError::MalformedRequest);
}

#[test]
fn parse_port_with_plus_sign() {
    let raw = b"GET / HTTP/1.1\r\nHost: example.com:+90\r\n\r\n".to_vec();
    let req = Request::parse(raw).unwrap();
    assert_eq!(req.port, 90);
}

#[test]
fn parse_bare_line_feed_endings() {
    let raw = b"GET / HTTP/1.1\nHost: example.com:90\n\n".to_vec();
    let req = Request::parse(raw).unwrap();
    assert_eq!(req.method, "GET");
    assert_eq!(req.host, "example.com");
    assert_eq!(req.port, 90);
}

#[test]
fn parse_without_terminating_blank_line() {
    let raw = b"GET / HTTP/1.1\r\nHost: example.com:7070".to_vec();
    let req = Request::parse(raw).unwrap();
    assert_eq!(req.host, "example.com");
    assert_eq!(req.port, 7070);
}

#[test]
fn parse_signed_port_like_integer_parsing() {
    let raw = b"GET / HTTP/1.1\r\nHost: example.com:-1\r\n\r\n".to_vec();
    let req = Request::parse(raw).unwrap();
    assert_eq!(req.port, -1);
}

#[test]
fn parse_port_from_untruncated_host_value() {
    let raw = b"GET / HTTP/1.1\r\nHost: ab:90\r\n\r\n".to_vec();
    let req = Request::parse(raw).unwrap();
    assert_eq!(req.host, "ab");
    assert_eq!(req.port, 90);
}

#[test]
fn parse_headers_recovered() {
    let raw =
        b"GET / HTTP/1.1\r\nHost: example.com\r\nAccept: text/html\r\nUser-Agent: curl\r\n\r\n"
            .to_vec();
    let req = Request::parse(raw).unwrap();
    assert_eq!(req.headers.get(&"Accept".to_string()).unwrap().as_str(), "text/html");
    assert_eq!(req.headers.get(&"User-Agent".to_string()).unwrap().as_str(), "curl");
    assert_eq!(req.headers.get(&"Host".to_string()).unwrap().as_str(), "example.com");
    assert!(req.headers.get(&"Cookie".to_string()).is_none());
}

#[test]
fn parse_duplicate_header_last_occurrence_wins() {
    let raw = b"GET / HTTP/1.1\r\nX-Tag: first\r\nHost: one.example\r\nX-Tag: second\r\nHost: two.example:81\r\n\r\n"
        .to_vec();
    let req = Request::parse(raw).unwrap();
    assert_eq!(req.headers.get(&"X-Tag".to_string()).unwrap().as_str(), "second");
    assert_eq!(req.headers.get(&"Host".to_string()).unwrap().as_str(), "two.example:81");
    assert_eq!(req.host, "two.example");
    assert_eq!(req.port, 81);
}

#[test]
fn parse_header_value_trimmed() {
    let raw = b"GET / HTTP/1.1\r\nHost:   example.com:8080   \r\nPadded:  v  \r\n\r\n".to_vec();
    let req = Request::parse(raw).unwrap();
    assert_eq!(req.host, "example.com");
    assert_eq!(req.port, 8080);
    assert_eq!(req.headers.get(&"Padded".to_string()).unwrap().as_str(), "v");
}

#[test]
fn parse_header_value_split_at_first_colon_only() {
    let raw = b"GET / HTTP/1.1\r\nHost: example.com\r\nReferer: http://a/b\r\n\r\n".to_vec();
    let req = Request::parse(raw).unwrap();
    assert_eq!(req.headers.get(&"Referer".to_string()).unwrap().as_str(), "http://a/b");
}

#[test]
fn parse_body_bytes_kept_in_raw_data() {
    let raw = b"POST /p HTTP/1.1\r\nHost: example.com\r\n\r\nkey=value&x: y".to_vec();
    let req = Request::parse(raw.clone()).unwrap();
    assert_eq!(req.method, "POST");
    assert_eq!(req.raw_data, raw);
    assert!(req.headers.get(&"key=value&x".to_string()).is_none());
}

#[test]
fn parse_headers_stop_at_blank_line() {
    let raw = b"GET / HTTP/1.1\r\nHost: example.com\r\n\r\nTrailer: nope\r\n".to_vec();
    let req = Request::parse(raw).unwrap();
    assert!(req.headers.get(&"Trailer".to_string()).is_none());
}

#[test]
fn request_new_is_blank() {
    let req = Request::new();
    assert_eq!(req.method, "");
    assert_eq!(req.version, "");
    assert_eq!(req.url_raw, "");
    assert_eq!(req.host, "");
    assert_eq!(req.port, 0);
    assert!(req.raw_data.is_empty());
}

#[test]
fn request_default_matches_new() {
    let req = Request::default();
    assert_eq!(req.method, "");
    assert_eq!(req.port, 0);
}
