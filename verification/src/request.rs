//! The immutable request value and its builder.
//!
//! A builder starts from the defaults (method GET, empty target, version
//! HTTP/1.1, no headers), is populated by chained setters, and is frozen
//! into a `Request` by the terminal `body` call.

use vstd::prelude::*;

use crate::bytes::{lower_seq, trim_seq, copy_vec, eq_bytes};
use crate::headers::{HeaderMap, spec_insert, spec_get, wf};
use crate::tokens::{tok_get, tok_get_lower, tok_post, tok_post_lower, http_version,
    http_version_vec, tok_get_vec, tok_get_lower_vec};

verus! {

/// The request methods the server understands; any other token is rejected
/// by the parser.
#[derive(Clone, Copy, PartialEq, Eq, Structural, Debug)]
pub enum Method {
    Get,
    Post,
}

/// The method a request-line token names, if any. Upper- and lower-case
/// spellings are accepted; nothing else is.
pub open spec fn method_of_token(t: Seq<u8>) -> Option<Method> {
    if t == tok_get() || t == tok_get_lower() {
        Some(Method::Get)
    } else if t == tok_post() || t == tok_post_lower() {
        Some(Method::Post)
    } else {
        None
    }
}

struct RequestHead {
    method: Method,
    uri: Vec<u8>,
    version: Vec<u8>,
    headers: HeaderMap,
}

/// The mathematical content of a request head.
pub struct RequestHeadView {
    pub method: Method,
    pub uri: Seq<u8>,
    pub version: Seq<u8>,
    pub headers: Seq<(Seq<u8>, Seq<u8>)>,
}

/// The mathematical content of a full request.
pub struct RequestView {
    pub head: RequestHeadView,
    pub body: Seq<u8>,
}

/// Validity of a request head: its header map is well-formed.
pub open spec fn head_wf(h: RequestHeadView) -> bool {
    wf(h.headers)
}

/// The head every builder starts from: method GET, empty target, version
/// HTTP/1.1, no headers.
pub open spec fn default_request_head() -> RequestHeadView {
    RequestHeadView {
        method: Method::Get,
        uri: Seq::empty(),
        version: http_version(),
        headers: Seq::empty(),
    }
}

/// An immutable request: a frozen head plus the body bytes.
pub struct Request {
    head: RequestHead,
    body: Vec<u8>,
}

/// A request under construction.
pub struct RequestBuilder {
    head: RequestHead,
}

impl View for RequestBuilder {
    type V = RequestHeadView;

    closed spec fn view(&self) -> RequestHeadView {
        RequestHeadView {
            method: self.head.method,
            uri: self.head.uri@,
            version: self.head.version@,
            headers: self.head.headers@,
        }
    }
}

impl View for Request {
    type V = RequestView;

    closed spec fn view(&self) -> RequestView {
        RequestView {
            head: RequestHeadView {
                method: self.head.method,
                uri: self.head.uri@,
                version: self.head.version@,
                headers: self.head.headers@,
            },
            body: self.body@,
        }
    }
}

impl Default for RequestBuilder {
    /// A builder holding the default head.
    fn default() -> (r: RequestBuilder)
        ensures
            r@ == default_request_head(),
            head_wf(r@),
    {
        RequestBuilder {
            head: RequestHead {
                method: Method::Get,
                uri: Vec::new(),
                version: http_version_vec(),
                headers: HeaderMap::new(),
            },
        }
    }
}

impl Request {
    /// Start building a request from the defaults.
    pub fn build() -> (r: RequestBuilder)
        ensures
            r@ == default_request_head(),
            head_wf(r@),
    {
        RequestBuilder::default()
    }

    /// The request's method.
    pub fn method(&self) -> (r: &Method)
        ensures
            *r == self@.head.method,
    {
        &self.head.method
    }

    /// The request's target, as it stood on the request line.
    pub fn uri(&self) -> (r: &Vec<u8>)
        ensures
            r@ == self@.head.uri,
    {
        &self.head.uri
    }

    /// The request's protocol version.
    pub fn version(&self) -> (r: &Vec<u8>)
        ensures
            r@ == self@.head.version,
    {
        &self.head.version
    }

    /// Look a header up by name, case-insensitively.
    pub fn header(&self, name: &Vec<u8>) -> (r: Option<&Vec<u8>>)
        ensures
            (match r {
                Some(v) => spec_get(self@.head.headers, lower_seq(name@)) == Some(v@),
                None => spec_get(self@.head.headers, lower_seq(name@)) is None,
            }),
    {
        self.head.headers.get(name)
    }

    /// The request's body bytes.
    pub fn body(&self) -> (r: &Vec<u8>)
        ensures
            r@ == self@.body,
    {
        &self.body
    }
}

impl RequestBuilder {
    /// Set the method from its request-line token. The caller must have
    /// checked the token: an unknown one is refused earlier, by the parser.
    pub fn method(self, method: &Vec<u8>) -> (r: RequestBuilder)
        requires
            method_of_token(method@) is Some,
        ensures
            r@ == (RequestHeadView { method: method_of_token(method@)->0, ..self@ }),
    {
        let m: Method = if eq_bytes(method, &tok_get_vec()) || eq_bytes(
            method,
            &tok_get_lower_vec(),
        ) {
            Method::Get
        } else {
            proof {
                assert(method_of_token(method@) == Some(Method::Post));
            }
            Method::Post
        };
        let mut this = self;
        this.head.method = m;
        this
    }

    /// Set the target.
    pub fn uri(self, uri: &Vec<u8>) -> (r: RequestBuilder)
        ensures
            r@ == (RequestHeadView { uri: uri@, ..self@ }),
    {
        let mut this = self;
        this.head.uri = copy_vec(uri);
        this
    }

    /// Set the protocol version.
    pub fn version(self, version: &Vec<u8>) -> (r: RequestBuilder)
        ensures
            r@ == (RequestHeadView { version: version@, ..self@ }),
    {
        let mut this = self;
        this.head.version = copy_vec(version);
        this
    }

    /// Add a header; the name is normalized and the value trimmed, and an
    /// existing entry for the same name is overwritten.
    pub fn header(self, name: &Vec<u8>, value: &Vec<u8>) -> (r: RequestBuilder)
        requires
            head_wf(self@),
        ensures
            r@ == (RequestHeadView {
                headers: spec_insert(self@.headers, lower_seq(name@), trim_seq(value@)),
                ..self@
            }),
            head_wf(r@),
    {
        let mut this = self;
        this.head.headers.insert(name, value);
        this
    }

    /// Freeze the builder into an immutable request carrying `content`.
    pub fn body(self, content: Vec<u8>) -> (r: Request)
        ensures
            r@ == (RequestView { head: self@, body: content@ }),
    {
        Request { head: self.head, body: content }
    }

    /// Look a header up on the unfinished request, case-insensitively.
    pub fn peek_header(&self, name: &Vec<u8>) -> (r: Option<&Vec<u8>>)
        ensures
            (match r {
                Some(v) => spec_get(self@.headers, lower_seq(name@)) == Some(v@),
                None => spec_get(self@.headers, lower_seq(name@)) is None,
            }),
    {
        self.head.headers.get(name)
    }
}

} // verus!
