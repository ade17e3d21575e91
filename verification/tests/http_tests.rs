use http::headers::Headers;
use http::http_request::HttpRequest;
use http::http_request::Method;
use http::http_request::Resource;
use http::http_request::Version;
use http::http_response::HttpResponse;

#[test]
fn test_method_into() {
    let m: Method = "GET".into();
    assert_eq!(m, Method::Get);
}

#[test]
fn test_version_into() {
    let m: Version = "HTTP/1.1".into();
    assert_eq!(m, Version::V1_1);
}

#[test]
fn test_response_struct_creation_200() {
    let response_actual = HttpResponse::new(
        "200",
        None,
        Some("Item was shipped on 22nd April 2022".into()),
    );
    let response_expected = HttpResponse {
        version: "HTTP/1.1".into(),
        status_code: "200".into(),
        status_text: "OK".into(),
        headers: {
            let mut h = Headers::new();
            h.insert("Content-Type".into(), "text/html".into());
            Some(h)
        },
        body: Some("Item was shipped on 22nd April 2022".into()),
    };
    assert_eq!(response_actual, response_expected);
}

#[test]
fn test_status_table_round_trip() {
    assert_eq!(HttpResponse::new("200", None, None).status_text(), "OK");
    assert_eq!(HttpResponse::new("400", None, None).status_text(), "Bad Request");
    assert_eq!(HttpResponse::new("404", None, None).status_text(), "Not Found");
    assert_eq!(
        HttpResponse::new("500", None, None).status_text(),
        "Internal Server Error"
    );
    assert_eq!(HttpResponse::new("418", None, None).status_text(), "Not Found");
    assert_eq!(HttpResponse::new("", None, None).status_text(), "Not Found");
    assert_eq!(HttpResponse::new("301", None, None).status_text(), "Not Found");
}

#[test]
fn test_header_default() {
    let response = HttpResponse::new("200", None, Some("hello".into()));
    let headers = response.headers.as_ref().expect("headers must default");
    assert_eq!(headers.len(), 1);
    assert_eq!(headers.get("Content-Type"), Some(&"text/html".to_string()));
    assert_eq!(response.headers(), "Content-Type:text/html\r\n");
}

#[test]
fn test_supplied_headers_replace_default() {
    let mut h = Headers::new();
    h.insert("Connection".into(), "close".into());
    let response = HttpResponse::new("200", Some(h), None);
    let headers = response.headers.as_ref().unwrap();
    assert_eq!(headers.len(), 1);
    assert_eq!(headers.get("Content-Type"), None);
    assert_eq!(headers.get("Connection"), Some(&"close".to_string()));
}

#[test]
fn test_serialize_idempotent() {
    let response = HttpResponse::new("200", None, Some("same bytes".into()));
    let first = response.serialize();
    let second = response.serialize();
    assert_eq!(first, second);
    assert_eq!(first.as_bytes(), second.as_bytes());
}

#[test]
fn test_content_length_is_byte_length() {
    // "héllo wörld" has 11 characters but 13 UTF-8 bytes.
    let body = String::from("h\u{e9}llo w\u{f6}rld");
    assert_eq!(body.chars().count(), 11);
    assert_eq!(body.len(), 13);
    let response = HttpResponse::new("200", None, Some(body));
    let wire = response.serialize();
    assert!(wire.contains("Content-Length: 13\r\n\r\n"));
}

#[test]
fn test_content_length_of_missing_body_is_zero() {
    let response = HttpResponse::new("200", None, None);
    let wire = response.serialize();
    assert_eq!(
        wire,
        "HTTP/1.1 200 OK\r\nContent-Type:text/html\r\nContent-Length: 0\r\n\r\n"
    );
    assert_eq!(response.body(), "");
}

#[test]
fn test_parser_default_on_garbage() {
    let request = HttpRequest::from("not an http request at all".to_string());
    assert_eq!(request.method, Method::Uninitialized);
    assert_eq!(request.version, Version::V1_1);
    assert_eq!(request.resource, Resource::Path("".to_string()));
    assert_eq!(request.headers.len(), 0);
    assert_eq!(request.msg_body, "not an http request at all");
}

#[test]
fn test_parse_greeting_request() {
    let raw = "GET /greeting HTTP/1.1\r\nHost: localhost\r\n\r\n".to_string();
    let request = HttpRequest::from(raw);
    assert_eq!(request.method, Method::Get);
    assert_eq!(request.version, Version::V1_1);
    assert_eq!(request.resource, Resource::Path("/greeting".to_string()));
    assert_eq!(request.headers.len(), 1);
    assert_eq!(request.headers.get("Host"), Some(&" localhost".to_string()));
    assert_eq!(request.msg_body, "");
}

#[test]
fn test_serialize_404_with_body() {
    let response = HttpResponse::new(
        "404",
        None,
        Some("Item was shipped on 22nd April 2022".into()),
    );
    let wire = response.serialize();
    assert_eq!(
        wire,
        "HTTP/1.1 404 Not Found\r\nContent-Type:text/html\r\nContent-Length: 35\r\n\r\nItem was shipped on 22nd April 2022"
    );
}

#[test]
fn test_method_conversion_exhaustive() {
    assert_eq!(Method::from("GET"), Method::Get);
    assert_eq!(Method::from("POST"), Method::Post);
    assert_eq!(Method::from(""), Method::Uninitialized);
    assert_eq!(Method::from("get"), Method::Uninitialized);
    assert_eq!(Method::from("PUT"), Method::Uninitialized);
    assert_eq!(Method::from("DELETE"), Method::Uninitialized);
    assert_eq!(Method::from("GETX"), Method::Uninitialized);
    assert_eq!(Method::from(" GET"), Method::Uninitialized);
}

#[test]
fn test_version_conversion() {
    assert_eq!(Version::from("HTTP/1.1"), Version::V1_1);
    assert_eq!(Version::from("HTTP/2.0"), Version::Uninitialized);
    assert_eq!(Version::from(""), Version::Uninitialized);
    assert_eq!(Version::from("http/1.1"), Version::Uninitialized);
}

#[test]
fn test_post_request_with_body() {
    let raw = "POST /submit HTTP/1.1\r\nHost: localhost\r\nContent-Length: 5\r\n\r\nhello".to_string();
    let request = HttpRequest::from(raw);
    assert_eq!(request.method, Method::Post);
    assert_eq!(request.resource, Resource::Path("/submit".to_string()));
    // "Content-Length: 5" is itself a colon line, so it lands in the headers.
    assert_eq!(request.headers.len(), 2);
    assert_eq!(request.headers.get("Host"), Some(&" localhost".to_string()));
    assert_eq!(request.headers.get("Content-Length"), Some(&" 5".to_string()));
    assert_eq!(request.msg_body, "hello");
}

#[test]
fn test_duplicate_header_last_write_wins() {
    let raw = "GET / HTTP/1.1\r\nHost: one\r\nHost: two\r\n\r\n".to_string();
    let request = HttpRequest::from(raw);
    assert_eq!(request.headers.len(), 1);
    assert_eq!(request.headers.get("Host"), Some(&" two".to_string()));
}

#[test]
fn test_header_split_at_first_colon_untrimmed() {
    let raw = "GET / HTTP/1.1\r\nX-Time: 12:30:00 \r\n\r\n".to_string();
    let request = HttpRequest::from(raw);
    assert_eq!(request.headers.get("X-Time"), Some(&" 12:30:00 ".to_string()));
}

#[test]
fn test_malformed_request_line_degrades() {
    let raw = "GET HTTP/1.1\r\n\r\n".to_string();
    let request = HttpRequest::from(raw);
    assert_eq!(request.method, Method::Uninitialized);
    assert_eq!(request.version, Version::Uninitialized);
    assert_eq!(request.resource, Resource::Path("".to_string()));
}

#[test]
fn test_parse_accepts_bare_line_feeds() {
    let raw = "GET /x HTTP/1.1\nHost: localhost\n\n".to_string();
    let request = HttpRequest::from(raw);
    assert_eq!(request.method, Method::Get);
    assert_eq!(request.resource, Resource::Path("/x".to_string()));
    assert_eq!(request.headers.get("Host"), Some(&" localhost".to_string()));
}

#[test]
fn test_unknown_method_and_version_tokens() {
    let raw = "YANK /thing HTTP/9.9\r\n\r\n".to_string();
    let request = HttpRequest::from(raw);
    assert_eq!(request.method, Method::Uninitialized);
    assert_eq!(request.version, Version::Uninitialized);
    assert_eq!(request.resource, Resource::Path("/thing".to_string()));
}

#[test]
fn test_non_200_code_kept_verbatim() {
    let response = HttpResponse::new("999", None, None);
    assert_eq!(response.status_code(), "999");
    assert_eq!(response.status_text(), "Not Found");
    assert_eq!(response.version(), "HTTP/1.1");
}

#[test]
fn test_serialize_multiple_headers_in_insertion_order() {
    let mut h = Headers::new();
    h.insert("A".into(), "1".into());
    h.insert("B".into(), "2".into());
    h.insert("A".into(), "3".into());
    let response = HttpResponse::new("200", Some(h), None);
    assert_eq!(response.headers(), "A:3\r\nB:2\r\n");
    let wire = response.serialize();
    assert_eq!(
        wire,
        "HTTP/1.1 200 OK\r\nA:3\r\nB:2\r\nContent-Length: 0\r\n\r\n"
    );
}

#[test]
fn test_default_response() {
    let response = HttpResponse::default();
    assert_eq!(response.version(), "HTTP/1.1");
    assert_eq!(response.status_code(), "200");
    assert_eq!(response.status_text(), "OK");
    assert!(response.headers.is_none());
    assert!(response.body.is_none());
}

#[test]
fn test_empty_input_parses_to_defaults() {
    let request = HttpRequest::from(String::new());
    assert_eq!(request.method, Method::Uninitialized);
    assert_eq!(request.version, Version::V1_1);
    assert_eq!(request.resource, Resource::Path("".to_string()));
    assert_eq!(request.headers.len(), 0);
    assert_eq!(request.msg_body, "");
}
