use practicals::http_types::{ContentType, Header, HttpCode, HttpMethod, Protocol};
use practicals::request::{buffer_to_request, Clock, ForwardedRequest, HttpRequest};

const GET_REQUEST: &str = "GET /index.html HTTP/1.1\r\nHost: localhost\r\nAccept: */*\r\n\r\n";

#[test]
fn clock_counts_from_zero() {
    let mut clock = Clock::new();
    assert_eq!(clock.increment_time(), 0);
    assert_eq!(clock.increment_time(), 1);
    assert_eq!(clock.increment_time(), 2);
}

#[test]
fn clock_readings_increase() {
    let mut clock = Clock::new();
    let first = clock.increment_time();
    let second = clock.increment_time();
    assert!(first < second);
    assert_eq!(second, first + 1);
}

#[test]
fn method_is_read_in_any_case() {
    assert!(HttpMethod::new("GET") == HttpMethod::GET);
    assert!(HttpMethod::new("get") == HttpMethod::GET);
    assert!(HttpMethod::new("Post") == HttpMethod::POST);
    assert!(HttpMethod::new("put") == HttpMethod::PUT);
    assert!(HttpMethod::new("delete") == HttpMethod::DELETE);
    assert!(HttpMethod::new("patch") == HttpMethod::PATCH);
}

#[test]
fn method_defaults_to_patch() {
    assert!(HttpMethod::new("OPTIONS") == HttpMethod::PATCH);
    assert!(HttpMethod::new("") == HttpMethod::PATCH);
}

#[test]
fn method_searches_in_order() {
    assert!(HttpMethod::new("xGETPOSTx") == HttpMethod::GET);
    assert!(HttpMethod::new("putpost") == HttpMethod::POST);
    assert!(HttpMethod::new("DELETEPUT") == HttpMethod::PUT);
}

#[test]
fn method_uses_unicode_uppercase() {
    // The long s uppercases to `S`, so this spells POST once uppercased.
    assert!(HttpMethod::new("po\u{17f}t") == HttpMethod::POST);
    assert!(HttpMethod::from_upper("po\u{17f}t") == HttpMethod::PATCH);
}

#[test]
fn method_name_reads_back() {
    for m in [HttpMethod::GET, HttpMethod::POST, HttpMethod::PUT, HttpMethod::PATCH, HttpMethod::DELETE] {
        assert!(HttpMethod::new(&m.to_string()) == m);
    }
}

#[test]
fn method_names() {
    assert_eq!(HttpMethod::GET.to_string(), "GET");
    assert_eq!(HttpMethod::DELETE.to_string(), "DELETE");
    assert!(HttpMethod::GET != HttpMethod::POST);
}

#[test]
fn code_texts() {
    assert_eq!(HttpCode::OK.to_string(), "200 OK");
    assert_eq!(HttpCode::Created.to_string(), "201 Created");
    assert_eq!(HttpCode::BadRequest.to_string(), "400 Bad Request");
    assert_eq!(HttpCode::Unauthorized.to_string(), "401 Unauthorized");
    assert_eq!(HttpCode::NotFound.to_string(), "404 Not Found");
    assert_eq!(HttpCode::MethodNotAllowed.to_string(), "405 Method Not Allowed");
    assert_eq!(HttpCode::RequestTimeout.to_string(), "408 Request Timeout");
    assert_eq!(HttpCode::Teapot.to_string(), "418 I'm a teapot");
    assert_eq!(HttpCode::InternalServerError.to_string(), "500 Internal Server Error");
}

#[test]
fn codes_compare_by_identity() {
    assert!(HttpCode::NotFound == HttpCode::NotFound);
    assert!(HttpCode::NotFound != HttpCode::Teapot);
    assert!(HttpCode::OK != HttpCode::Created);
}

#[test]
fn protocol_content_type_and_header_texts() {
    assert_eq!(Protocol::Http.to_string(), "HTTP/1.1");
    assert_eq!(ContentType::Text.to_string(), "text/plain");
    assert_eq!(ContentType::Html.to_string(), "text/html");
    assert_eq!(ContentType::Json.to_string(), "application/json");
    let header = Header { title: "Host".to_string(), value: "localhost".to_string() };
    assert_eq!(header.to_string(), "Host : localhost");
}

#[test]
fn request_is_read_from_bytes() {
    let r = HttpRequest::new(GET_REQUEST.as_bytes(), "10.0.0.1".to_string(), 7).unwrap();
    assert!(r.method == HttpMethod::GET);
    assert_eq!(r.uri, "/index.html");
    assert_eq!(r.request_id, 7);
    assert_eq!(r.client_ip, "10.0.0.1");
    assert_eq!(r.headers, vec!["Host: localhost".to_string(), "Accept: */*".to_string()]);
    assert_eq!(r.body, "");
}

#[test]
fn request_body_follows_blank_line() {
    let text = "post /form HTTP/1.1\nContent-Type: text/plain\n\nfirst\n\nsecond\n";
    let r = HttpRequest::new(text.as_bytes(), "ip".to_string(), -3).unwrap();
    assert!(r.method == HttpMethod::POST);
    assert_eq!(r.headers, vec!["Content-Type: text/plain".to_string()]);
    assert_eq!(r.body, "firstsecond");
}

#[test]
fn request_without_blank_line_has_no_body() {
    let text = "GET / HTTP/1.1\nA: 1\nB: 2";
    let r = HttpRequest::new(text.as_bytes(), "ip".to_string(), 0).unwrap();
    assert_eq!(r.headers, vec!["A: 1".to_string(), "B: 2".to_string()]);
    assert_eq!(r.body, "");
}

#[test]
fn favicon_requests_go_to_root() {
    let text = "GET /favicon.ico HTTP/1.1\r\nHost: x\r\n\r\n";
    let r = HttpRequest::new(text.as_bytes(), "ip".to_string(), 1).unwrap();
    assert_eq!(r.uri, "/");
}

#[test]
fn short_request_is_invalid() {
    let r = HttpRequest::new("GET / HTTP/1.1\r\n\r\n".as_bytes(), "ip".to_string(), 1);
    assert_eq!(r.err(), Some("Invalid request".to_string()));
    let r = HttpRequest::new(b"", "ip".to_string(), 1);
    assert_eq!(r.err(), Some("Invalid request".to_string()));
}

#[test]
fn request_summary_text() {
    let r = HttpRequest::new(GET_REQUEST.as_bytes(), "10.0.0.1".to_string(), -42).unwrap();
    assert_eq!(
        r.to_string(),
        "Request: {method: GET, path: /index.html, request_id: -42,client_ip: 10.0.0.1}"
    );
}

fn request_with(headers: &[&str]) -> HttpRequest {
    let mut text = String::from("GET / HTTP/1.1\r\n");
    for h in headers {
        text.push_str(h);
        text.push_str("\r\n");
    }
    text.push_str("\r\n");
    HttpRequest::new(text.as_bytes(), "ip".to_string(), 0).unwrap()
}

#[test]
fn gzip_in_encoding_list_is_supported() {
    let r = request_with(&["Host: x", "Accept-Encoding: gzip, deflate, br"]);
    assert!(r.is_compression_supported());
    let r = request_with(&["Accept-Encoding: deflate, x-gzip"]);
    assert!(r.is_compression_supported());
}

#[test]
fn single_encoding_must_be_gzip() {
    assert!(request_with(&["ACCEPT-ENCODING: GZIP"]).is_compression_supported());
    assert!(!request_with(&["Accept-Encoding: br"]).is_compression_supported());
    assert!(!request_with(&["Accept-Encoding: gzip;q=1"]).is_compression_supported());
}

#[test]
fn firefox_rules_compression_out() {
    let r = request_with(&["User-Agent: Mozilla/5.0 Firefox/128.0", "Accept-Encoding: gzip, br"]);
    assert!(!r.is_compression_supported());
    let r = request_with(&["Accept-Encoding: gzip, br", "User-Agent: Firefox"]);
    assert!(r.is_compression_supported());
}

#[test]
fn no_encoding_header_means_no_compression() {
    assert!(!request_with(&["Host: x"]).is_compression_supported());
    let bare = HttpRequest {
        request_id: 0,
        client_ip: "ip".to_string(),
        headers: Vec::new(),
        body: String::new(),
        method: HttpMethod::GET,
        uri: "/".to_string(),
    };
    assert!(!bare.is_compression_supported());
    assert!(!request_with(&["Accept-Encoding: deflate, br"]).is_compression_supported());
}

#[test]
fn malformed_encoding_header_is_reported() {
    assert_eq!(request_with(&["accept-encoding"]).try_is_compression_supported(), None);
    assert_eq!(request_with(&["Accept-Encoding:gzip, br"]).try_is_compression_supported(), None);
    assert_eq!(
        request_with(&["Accept-Encoding: gzip, br"]).try_is_compression_supported(),
        Some(true)
    );
    assert_eq!(request_with(&["Host: x"]).try_is_compression_supported(), Some(false));
}

#[test]
fn forwarded_request_gets_an_identifier_header() {
    let inner = http::Request::new(b"payload".to_vec());
    let fwd = ForwardedRequest::new("/favicon.ico".to_string(), "1.2.3.4".to_string(), inner);
    assert_eq!(fwd.uri, "/");
    assert_eq!(fwd.client_ip, "1.2.3.4");
    let id = uuid::Uuid::from_u128(fwd.request_id);
    assert_eq!(id.get_version_num(), 4);
    let header = fwd.request.headers().get("x-request-id").unwrap();
    assert_eq!(header.to_str().unwrap(), id.to_string());
    assert_eq!(header.to_str().unwrap().len(), 36);
    assert_eq!(fwd.request.body(), &b"payload".to_vec());
    assert_eq!(fwd.request.method(), http::Method::GET);
    assert_eq!(fwd.request.version(), http::Version::HTTP_11);
}

#[test]
fn forwarded_request_keeps_version_and_extensions() {
    let mut inner = http::Request::new(Vec::new());
    *inner.version_mut() = http::Version::HTTP_2;
    *inner.method_mut() = http::Method::POST;
    *inner.uri_mut() = "/x?y=1".parse().unwrap();
    inner.extensions_mut().insert(7u32);
    inner.headers_mut().insert("host", "example".parse().unwrap());
    let fwd = ForwardedRequest::new("/x".to_string(), "ip".to_string(), inner);
    assert_eq!(fwd.request.version(), http::Version::HTTP_2);
    assert_eq!(fwd.request.method(), http::Method::POST);
    assert_eq!(fwd.request.uri(), "/x?y=1");
    assert_eq!(fwd.request.extensions().get::<u32>(), Some(&7u32));
    assert_eq!(fwd.request.extensions().len(), 1);
    assert_eq!(fwd.request.headers().get("host").unwrap(), "example");
    assert_eq!(fwd.request.headers().len(), 2);
}

#[test]
fn header_case_does_not_change_gzip_answer() {
    let cases: [&[&str]; 4] = [
        &["Accept-Encoding: gzip, br"],
        &["ACCEPT-ENCODING: GZIP"],
        &["User-Agent: FireFox", "Accept-Encoding: gzip, br"],
        &["Accept-Encoding: Deflate, BR"],
    ];
    for headers in cases.iter() {
        let lower: Vec<String> = headers.iter().map(|h| h.to_ascii_lowercase()).collect();
        let upper: Vec<String> = headers.iter().map(|h| h.to_ascii_uppercase()).collect();
        let lower_refs: Vec<&str> = lower.iter().map(|h| h.as_str()).collect();
        let upper_refs: Vec<&str> = upper.iter().map(|h| h.as_str()).collect();
        let a = request_with(headers).is_compression_supported();
        assert_eq!(a, request_with(&lower_refs).is_compression_supported());
        assert_eq!(a, request_with(&upper_refs).is_compression_supported());
    }
}

#[test]
fn forwarded_request_replaces_an_old_identifier() {
    let mut inner = http::Request::new(Vec::new());
    inner.headers_mut().insert("x-request-id", "old".parse().unwrap());
    inner.headers_mut().append("x-request-id", "older".parse().unwrap());
    let fwd = ForwardedRequest::new("/a".to_string(), "ip".to_string(), inner);
    assert_eq!(fwd.uri, "/a");
    let values: Vec<_> = fwd.request.headers().get_all("x-request-id").iter().collect();
    assert_eq!(values.len(), 1);
    assert_ne!(values[0], "old");
}

#[test]
fn identifiers_differ() {
    let a = ForwardedRequest::new("/".to_string(), "ip".to_string(), http::Request::new(Vec::new()));
    let b = ForwardedRequest::new("/".to_string(), "ip".to_string(), http::Request::new(Vec::new()));
    assert_ne!(a.request_id, b.request_id);
}

#[test]
fn buffer_becomes_blank_get_request() {
    let req = buffer_to_request(GET_REQUEST.as_bytes().to_vec(), "ip".to_string(), 3).unwrap();
    assert_eq!(req.method(), http::Method::GET);
    assert_eq!(req.uri(), "/");
    assert!(req.headers().is_empty());
    assert!(req.body().is_empty());
    assert_eq!(req.version(), http::Version::HTTP_11);
    assert!(req.extensions().is_empty());
}

#[test]
fn buffer_too_short_gives_error() {
    let r = buffer_to_request(b"GET /\n".to_vec(), "ip".to_string(), 3);
    assert_eq!(r.err(), Some("Invalid request".to_string()));
}
