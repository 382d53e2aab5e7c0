//! Routing decisions, content negotiation, and byte-exact rendering.

use http_server::parser::{attach_body, parse_headers, parse_request_line};
use http_server::request::Request;
use http_server::response::Response;
use http_server::router::{
    echo_compressed, file_read_response, file_write_response, router, RouteOutcome,
};

fn simple_request(line: &[u8], headers: &[&[u8]]) -> Request {
    let builder = Request::build();
    let builder = parse_request_line(builder, &line.to_vec()).unwrap();
    let hs: Vec<Vec<u8>> = headers.iter().map(|l| l.to_vec()).collect();
    let builder = parse_headers(builder, &hs).unwrap();
    attach_body(builder, 0, Vec::new()).unwrap()
}

fn done(outcome: RouteOutcome) -> Response {
    match outcome {
        RouteOutcome::Done(resp) => resp,
        _ => panic!("route was expected to finish on its own"),
    }
}

#[test]
fn root_is_ok_and_empty() {
    let resp = done(router(simple_request(b"GET / HTTP/1.1\r\n", &[])));
    assert_eq!(resp.status(), &b"200 OK".to_vec());
    assert_eq!(resp.body(), &Vec::<u8>::new());
    assert_eq!(resp.version(), &b"HTTP/1.1".to_vec());
    assert_eq!(resp.header(&b"Content-Type".to_vec()), Some(&b"text/plain".to_vec()));
    assert_eq!(resp.header(&b"Content-Length".to_vec()), Some(&b"0".to_vec()));
}

#[test]
fn user_agent_is_reflected() {
    let resp = done(router(simple_request(
        b"GET /user-agent HTTP/1.1\r\n",
        &[b"User-Agent: test-client/1.0\r\n"],
    )));
    assert_eq!(resp.status(), &b"200 OK".to_vec());
    assert_eq!(resp.body(), &b"test-client/1.0".to_vec());
}

#[test]
fn user_agent_missing_is_not_found() {
    let resp = done(router(simple_request(b"GET /user-agent HTTP/1.1\r\n", &[])));
    assert_eq!(resp.status(), &b"404 Not Found".to_vec());
    assert_eq!(resp.body(), &Vec::<u8>::new());
}

#[test]
fn echo_without_negotiation() {
    let resp = done(router(simple_request(b"GET /echo/abc HTTP/1.1\r\n", &[])));
    assert_eq!(resp.status(), &b"200 OK".to_vec());
    assert_eq!(resp.body(), &b"abc".to_vec());
    assert_eq!(resp.header(&b"Content-Encoding".to_vec()), None);
}

#[test]
fn echo_takes_last_segment() {
    let resp = done(router(simple_request(b"GET /echo/a/b HTTP/1.1\r\n", &[])));
    assert_eq!(resp.body(), &b"b".to_vec());
}

#[test]
fn echo_bare_prefix_echoes_its_own_segment() {
    // "/echo" has no second segment; the last segment is "echo" itself.
    let resp = done(router(simple_request(b"GET /echo HTTP/1.1\r\n", &[])));
    assert_eq!(resp.body(), &b"echo".to_vec());
    // A trailing slash leaves an empty final segment.
    let resp = done(router(simple_request(b"GET /echo/ HTTP/1.1\r\n", &[])));
    assert_eq!(resp.body(), &Vec::<u8>::new());
    // Prefix matching is literal: "/echoes" is routed as an echo.
    let resp = done(router(simple_request(b"GET /echoes HTTP/1.1\r\n", &[])));
    assert_eq!(resp.body(), &b"echoes".to_vec());
}

#[test]
fn echo_with_unsupported_encoding() {
    let resp = done(router(simple_request(
        b"GET /echo/abc HTTP/1.1\r\n",
        &[b"Accept-Encoding: br, deflate\r\n"],
    )));
    assert_eq!(resp.body(), &b"abc".to_vec());
    assert_eq!(resp.header(&b"content-encoding".to_vec()), None);
}

#[test]
fn echo_negotiates_gzip() {
    let outcome = router(simple_request(
        b"GET /echo/abc HTTP/1.1\r\n",
        &[b"Accept-Encoding: deflate, gzip, br\r\n"],
    ));
    match outcome {
        RouteOutcome::Compress { payload, encoding } => {
            assert_eq!(payload, b"abc".to_vec());
            assert_eq!(encoding, b" gzip".to_vec());
            // The compressor is external; its output, whatever it is,
            // becomes the body byte for byte.
            let stand_in = b"\x1f\x8b compressed stand-in".to_vec();
            let resp = echo_compressed(&encoding, stand_in.clone());
            assert_eq!(resp.status(), &b"200 OK".to_vec());
            assert_eq!(resp.header(&b"Content-Encoding".to_vec()), Some(&b"gzip".to_vec()));
            assert_eq!(resp.body(), &stand_in);
            assert_eq!(
                resp.header(&b"Content-Length".to_vec()),
                Some(&stand_in.len().to_string().into_bytes())
            );
        }
        _ => panic!("gzip should have been negotiated"),
    }
}

#[test]
fn files_get_reads_and_wraps() {
    let outcome = router(simple_request(b"GET /files/test.txt HTTP/1.1\r\n", &[]));
    match outcome {
        RouteOutcome::ReadFile { name } => {
            assert_eq!(name, b"test.txt".to_vec());
            let resp = file_read_response(Some(b"hello".to_vec()));
            assert_eq!(resp.status(), &b"200 OK".to_vec());
            assert_eq!(resp.body(), &b"hello".to_vec());
            assert_eq!(
                resp.header(&b"Content-Type".to_vec()),
                Some(&b"application/octet-stream".to_vec())
            );
        }
        _ => panic!("files GET should read"),
    }
}

#[test]
fn files_missing_is_not_found() {
    let resp = file_read_response(None);
    assert_eq!(resp.status(), &b"404 Not Found".to_vec());
    assert_eq!(resp.body(), &Vec::<u8>::new());
}

#[test]
fn files_post_writes_then_created() {
    let builder = Request::build();
    let builder =
        parse_request_line(builder, &b"POST /files/test.txt HTTP/1.1\r\n".to_vec()).unwrap();
    let hs = vec![b"Content-Length: 5\r\n".to_vec()];
    let builder = parse_headers(builder, &hs).unwrap();
    let req = attach_body(builder, 5, b"hello".to_vec()).unwrap();
    match router(req) {
        RouteOutcome::WriteFile { name, contents } => {
            assert_eq!(name, b"test.txt".to_vec());
            assert_eq!(contents, b"hello".to_vec());
            let resp = file_write_response();
            assert_eq!(resp.status(), &b"201 Created".to_vec());
            assert_eq!(resp.body(), &Vec::<u8>::new());
        }
        _ => panic!("files POST should write"),
    }
}

#[test]
fn unknown_route_is_not_found() {
    let resp = done(router(simple_request(b"GET /nothing HTTP/1.1\r\n", &[])));
    assert_eq!(resp.status(), &b"404 Not Found".to_vec());
    assert_eq!(resp.body(), &Vec::<u8>::new());
}

#[test]
fn render_is_byte_exact() {
    let resp = Response::build().body(b"abc".to_vec());
    let wire = resp.render();
    assert_eq!(
        wire,
        b"HTTP/1.1 200 OK\r\ncontent-type: text/plain\r\ncontent-length: 3\r\n\r\nabc".to_vec()
    );
}

#[test]
fn render_twice_is_identical() {
    let resp = done(router(simple_request(
        b"GET /user-agent HTTP/1.1\r\n",
        &[b"User-Agent: twice\r\n"],
    )));
    assert_eq!(resp.render(), resp.render());
}

#[test]
fn content_length_matches_body_and_tail_is_body() {
    let body = b"some bytes, of length 25".to_vec();
    let resp = Response::build().body(body.clone());
    assert_eq!(
        resp.header(&b"Content-Length".to_vec()),
        Some(&body.len().to_string().into_bytes())
    );
    let wire = resp.render();
    assert_eq!(&wire[wire.len() - body.len()..], body.as_slice());
}

#[test]
fn headers_render_in_insertion_order() {
    let resp = Response::build()
        .header(&b"X-A".to_vec(), &b"1".to_vec())
        .header(&b"X-B".to_vec(), &b"2".to_vec())
        .body(Vec::new());
    let wire = resp.render();
    let text = String::from_utf8(wire).unwrap();
    let a = text.find("x-a: 1\r\n").unwrap();
    let b = text.find("x-b: 2\r\n").unwrap();
    let l = text.find("content-length: 0\r\n").unwrap();
    assert!(a < b && b < l);
}
