//! Parser and data-model behavior, exercised on concrete wire bytes.

use http_server::parser::{
    attach_body, body_length, is_blank_line, parse_headers, parse_request_line, ParseError,
};
use http_server::headers::{HeaderName, HeaderValue};
use http_server::request::{Method, Request};

fn lines(ls: &[&[u8]]) -> Vec<Vec<u8>> {
    ls.iter().map(|l| l.to_vec()).collect()
}

#[test]
fn minimal_get_parses() {
    let builder = Request::build();
    let builder = parse_request_line(builder, &b"GET / HTTP/1.1\r\n".to_vec()).unwrap();
    let builder = parse_headers(builder, &lines(&[])).unwrap();
    assert_eq!(body_length(&builder).unwrap(), None);
    let req = attach_body(builder, 0, Vec::new()).unwrap();
    assert_eq!(*req.method(), Method::Get);
    assert_eq!(req.uri(), &b"/".to_vec());
    assert_eq!(req.version(), &b"HTTP/1.1".to_vec());
    assert_eq!(req.body(), &Vec::<u8>::new());
    assert_eq!(req.header(&b"content-length".to_vec()), None);
}

#[test]
fn lower_case_method_accepted() {
    let builder = Request::build();
    let builder = parse_request_line(builder, &b"post /files/a HTTP/1.1\r\n".to_vec()).unwrap();
    let req = attach_body(builder, 0, Vec::new()).unwrap();
    assert_eq!(*req.method(), Method::Post);
}

#[test]
fn short_request_line_is_malformed() {
    let builder = Request::build();
    let r = parse_request_line(builder, &b"GET /\r\n".to_vec());
    assert_eq!(r.err().unwrap(), ParseError::MalformedStartLine);
}

#[test]
fn unknown_method_is_unsupported() {
    let builder = Request::build();
    let r = parse_request_line(builder, &b"PUT / HTTP/1.1\r\n".to_vec());
    assert_eq!(r.err().unwrap(), ParseError::UnsupportedMethod);
}

#[test]
fn header_line_without_colon_is_malformed() {
    let builder = Request::build();
    let builder = parse_request_line(builder, &b"GET / HTTP/1.1\r\n".to_vec()).unwrap();
    let r = parse_headers(builder, &lines(&[b"Host localhost\r\n"]));
    assert_eq!(r.err().unwrap(), ParseError::MalformedHeader);
}

#[test]
fn header_split_at_first_colon_and_trimmed() {
    let builder = Request::build();
    let builder = parse_headers(builder, &lines(&[b"Host:  localhost:4221 \r\n"])).unwrap();
    assert_eq!(builder.peek_header(&b"host".to_vec()), Some(&b"localhost:4221".to_vec()));
}

#[test]
fn header_lookup_ignores_ascii_case() {
    let builder = Request::build();
    let builder = parse_headers(builder, &lines(&[b"User-Agent: curl/8.0\r\n"])).unwrap();
    let req = attach_body(builder, 0, Vec::new()).unwrap();
    assert_eq!(req.header(&b"USER-AGENT".to_vec()), Some(&b"curl/8.0".to_vec()));
    assert_eq!(req.header(&b"user-agent".to_vec()), Some(&b"curl/8.0".to_vec()));
    assert_eq!(req.header(&b"uSeR-aGeNt".to_vec()), Some(&b"curl/8.0".to_vec()));
}

#[test]
fn later_header_overwrites_earlier() {
    let builder = Request::build();
    let builder =
        parse_headers(builder, &lines(&[b"X-K: one\r\n", b"x-k: two\r\n"])).unwrap();
    assert_eq!(builder.peek_header(&b"X-K".to_vec()), Some(&b"two".to_vec()));
}

#[test]
fn content_length_governs_body() {
    let builder = Request::build();
    let builder = parse_request_line(builder, &b"POST /files/f HTTP/1.1\r\n".to_vec()).unwrap();
    let builder = parse_headers(builder, &lines(&[b"Content-Length: 5\r\n"])).unwrap();
    let declared = body_length(&builder).unwrap().unwrap();
    assert_eq!(declared, 5);
    let req = attach_body(builder, declared, b"hello".to_vec()).unwrap();
    assert_eq!(req.body(), &b"hello".to_vec());
}

#[test]
fn invalid_content_length_rejected() {
    let builder = Request::build();
    let builder = parse_headers(builder, &lines(&[b"Content-Length: five\r\n"])).unwrap();
    assert_eq!(body_length(&builder).err().unwrap(), ParseError::InvalidContentLength);
}

#[test]
fn huge_content_length_rejected() {
    let builder = Request::build();
    let builder = parse_headers(
        builder,
        &lines(&[b"Content-Length: 99999999999999999999999999\r\n"]),
    )
    .unwrap();
    assert_eq!(body_length(&builder).err().unwrap(), ParseError::InvalidContentLength);
}

#[test]
fn short_body_is_truncated() {
    let builder = Request::build();
    let builder = parse_headers(builder, &lines(&[b"Content-Length: 5\r\n"])).unwrap();
    let declared = body_length(&builder).unwrap().unwrap();
    let r = attach_body(builder, declared, b"hel".to_vec());
    assert_eq!(r.err().unwrap(), ParseError::TruncatedBody);
}

#[test]
fn blank_line_detection() {
    assert!(is_blank_line(&b"\r\n".to_vec()));
    assert!(is_blank_line(&b"\n".to_vec()));
    assert!(is_blank_line(&b"   \r\n".to_vec()));
    assert!(is_blank_line(&b"".to_vec()));
    assert!(!is_blank_line(&b"Host: x\r\n".to_vec()));
}

#[test]
fn header_name_and_value_normalization() {
    let name = HeaderName::new(&b"Content-TYPE".to_vec());
    assert_eq!(name.get(), &b"content-type".to_vec());
    let value = HeaderValue::new(&b"  text/plain \r\n".to_vec());
    assert_eq!(value.get(), &b"text/plain".to_vec());
}

#[test]
fn builder_defaults() {
    let req = Request::build().body(Vec::new());
    assert_eq!(*req.method(), Method::Get);
    assert_eq!(req.uri(), &Vec::<u8>::new());
    assert_eq!(req.version(), &b"HTTP/1.1".to_vec());
}

#[test]
fn builder_setters_chain() {
    let req = Request::build()
        .method(&b"POST".to_vec())
        .uri(&b"/x".to_vec())
        .version(&b"HTTP/1.0".to_vec())
        .header(&b"A".to_vec(), &b" 1 ".to_vec())
        .body(b"zz".to_vec());
    assert_eq!(*req.method(), Method::Post);
    assert_eq!(req.uri(), &b"/x".to_vec());
    assert_eq!(req.version(), &b"HTTP/1.0".to_vec());
    assert_eq!(req.header(&b"a".to_vec()), Some(&b"1".to_vec()));
    assert_eq!(req.body(), &b"zz".to_vec());
}
