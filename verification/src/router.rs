//! Routing and content negotiation.
//!
//! `router` is a pure function of the request. Most routes finish
//! immediately with a response; the two routes that need the outside world
//! (the external compressor, the served-files directory) come back as an
//! action for the caller to perform, and a verified continuation here
//! turns the outcome of that action into the response. The caller performs
//! the file read/write or runs the compressor, nothing more.

use vstd::prelude::*;

use crate::bytes::{lower_seq, trim_seq, starts_with, starts_with_vec, last_segment,
    last_segment_vec, split_sep, split_sep_vec, copy_vec, eq_bytes, trim_vec, COMMA};
use crate::headers::{spec_insert, spec_get};
use crate::request::{Method, Request, RequestView};
use crate::response::{Response, ResponseView, ResponseHeadView, default_response_head,
    finalize_response, status_line};
use crate::tokens::{path_root, path_root_vec, path_user_agent, path_user_agent_vec,
    path_echo_prefix, path_echo_prefix_vec, path_files_prefix, path_files_prefix_vec,
    name_user_agent, name_user_agent_vec, name_accept_encoding, name_accept_encoding_vec,
    name_content_encoding, name_content_encoding_vec, name_content_type, name_content_type_vec,
    val_octet_stream, val_octet_stream_vec, val_gzip, val_gzip_vec};

verus! {

/// What the router decided: either a finished response, or the one action
/// the caller must take before the matching continuation can finish.
pub enum RouteOutcome {
    /// The response is complete; send it.
    Done(Response),
    /// Run `payload` through the external compressor, then finish with
    /// `echo_compressed`; a compressor failure is fatal to the connection.
    Compress { payload: Vec<u8>, encoding: Vec<u8> },
    /// Read the named file under the served directory, then finish with
    /// `file_read_response`.
    ReadFile { name: Vec<u8> },
    /// Write `contents` to the named file under the served directory, then
    /// finish with `file_write_response`; a write failure is fatal.
    WriteFile { name: Vec<u8>, contents: Vec<u8> },
}

/// The mathematical content of a routing decision.
pub enum RouteDecision {
    Done(ResponseView),
    Compress { payload: Seq<u8>, encoding: Seq<u8> },
    ReadFile { name: Seq<u8> },
    WriteFile { name: Seq<u8>, contents: Seq<u8> },
}

impl View for RouteOutcome {
    type V = RouteDecision;

    open spec fn view(&self) -> RouteDecision {
        match self {
            RouteOutcome::Done(resp) => RouteDecision::Done(resp@),
            RouteOutcome::Compress { payload, encoding } => RouteDecision::Compress {
                payload: payload@,
                encoding: encoding@,
            },
            RouteOutcome::ReadFile { name } => RouteDecision::ReadFile { name: name@ },
            RouteOutcome::WriteFile { name, contents } => RouteDecision::WriteFile {
                name: name@,
                contents: contents@,
            },
        }
    }
}

/// A head with another status line.
pub open spec fn with_status(h: ResponseHeadView, code: u16) -> ResponseHeadView {
    ResponseHeadView { status: status_line(code), ..h }
}

/// The default head with its Content-Type replaced by the binary one.
pub open spec fn octet_stream_head() -> ResponseHeadView {
    ResponseHeadView {
        headers: spec_insert(
            default_response_head().headers,
            name_content_type(),
            val_octet_stream(),
        ),
        ..default_response_head()
    }
}

/// The first client-listed encoding the server supports: the value is cut
/// at its commas and the pieces scanned in the client's order; a piece
/// whose trimmed form is `gzip` matches and is returned as listed
/// (untrimmed). The client's preference order decides, not the server's.
pub open spec fn first_supported(pieces: Seq<Seq<u8>>) -> Option<Seq<u8>>
    decreases pieces.len(),
{
    if pieces.len() == 0 {
        None
    } else if trim_seq(pieces[0]) == val_gzip() {
        Some(pieces[0])
    } else {
        first_supported(pieces.drop_first())
    }
}

/// The encoding chosen for an Accept-Encoding value, if any.
pub open spec fn chosen_encoding(v: Seq<u8>) -> Option<Seq<u8>> {
    first_supported(split_sep(v, COMMA))
}

/// The routing decision for a request, route by route in priority order:
/// the bare root, the header reflection route, the echo route with its
/// content negotiation, the file route, and last the catch-all 404.
pub open spec fn spec_route(req: RequestView) -> RouteDecision {
    let u = req.head.uri;
    if u == path_root() {
        RouteDecision::Done(finalize_response(default_response_head(), Seq::empty()))
    } else if u == path_user_agent() {
        match spec_get(req.head.headers, name_user_agent()) {
            Some(agent) => RouteDecision::Done(finalize_response(default_response_head(), agent)),
            None => RouteDecision::Done(
                finalize_response(with_status(default_response_head(), 404), Seq::empty()),
            ),
        }
    } else if starts_with(u, path_echo_prefix()) {
        let what = last_segment(u);
        match spec_get(req.head.headers, name_accept_encoding()) {
            Some(encodings) => match chosen_encoding(encodings) {
                Some(tok) => RouteDecision::Compress { payload: what, encoding: tok },
                None => RouteDecision::Done(finalize_response(default_response_head(), what)),
            },
            None => RouteDecision::Done(finalize_response(default_response_head(), what)),
        }
    } else if starts_with(u, path_files_prefix()) {
        let name = last_segment(u);
        match req.head.method {
            Method::Get => RouteDecision::ReadFile { name: name },
            Method::Post => RouteDecision::WriteFile { name: name, contents: req.body },
        }
    } else {
        RouteDecision::Done(
            finalize_response(with_status(default_response_head(), 404), Seq::empty()),
        )
    }
}

/// The response the echo route gives once the compressor has answered:
/// Content-Encoding set to the matched token (trimmed, like any header
/// value) and the compressed bytes as the body — with the Content-Length
/// of the stored, compressed body, not of the original payload.
pub open spec fn spec_echo_compressed(encoding: Seq<u8>, compressed: Seq<u8>) -> ResponseView {
    finalize_response(
        ResponseHeadView {
            headers: spec_insert(
                default_response_head().headers,
                name_content_encoding(),
                trim_seq(encoding),
            ),
            ..default_response_head()
        },
        compressed,
    )
}

/// Scan the client's Accept-Encoding value for the first supported token.
pub fn choose_encoding(v: &Vec<u8>) -> (r: Option<Vec<u8>>)
    ensures
        (match r {
            Some(tok) => chosen_encoding(v@) == Some(tok@),
            None => chosen_encoding(v@) is None,
        }),
{
    let pieces = split_sep_vec(v, COMMA);
    let gzip = val_gzip_vec();
    let mut i: usize = 0;
    proof {
        assert(pieces.deep_view().skip(0) =~= pieces.deep_view());
    }
    while i < pieces.len()
        invariant
            i <= pieces@.len(),
            pieces.deep_view().len() == pieces@.len(),
            forall|j: int| 0 <= j < pieces@.len() ==> pieces.deep_view()[j] == pieces@[j]@,
            gzip@ == val_gzip(),
            chosen_encoding(v@) == first_supported(pieces.deep_view().skip(i as int)),
        decreases pieces@.len() - i,
    {
        let ghost rest = pieces.deep_view().skip(i as int);
        proof {
            assert(rest[0] == pieces@[i as int]@);
            assert(rest.drop_first() =~= pieces.deep_view().skip(i + 1));
        }
        let trimmed = trim_vec(&pieces[i]);
        if eq_bytes(&trimmed, &gzip) {
            return Some(copy_vec(&pieces[i]));
        }
        i = i + 1;
    }
    proof {
        assert(pieces.deep_view().skip(pieces.deep_view().len() as int) =~= Seq::<Seq<u8>>::empty());
    }
    None
}

/// Map a request to its routing decision. Pure: the one spot that touches
/// the outside world is the caller's, through the returned action.
pub fn router(req: Request) -> (r: RouteOutcome)
    ensures
        r@ == spec_route(req@),
{
    proof {
        assert(lower_seq(name_user_agent()) =~= name_user_agent());
        assert(lower_seq(name_accept_encoding()) =~= name_accept_encoding());
    }
    let uri = req.uri();
    if eq_bytes(uri, &path_root_vec()) {
        RouteOutcome::Done(Response::build().body(Vec::new()))
    } else if eq_bytes(uri, &path_user_agent_vec()) {
        match req.header(&name_user_agent_vec()) {
            Some(agent) => {
                let body = copy_vec(agent);
                RouteOutcome::Done(Response::build().body(body))
            },
            None => RouteOutcome::Done(Response::build().status(404).body(Vec::new())),
        }
    } else if starts_with_vec(uri, &path_echo_prefix_vec()) {
        let what = last_segment_vec(uri);
        match req.header(&name_accept_encoding_vec()) {
            Some(encodings) => match choose_encoding(encodings) {
                Some(tok) => RouteOutcome::Compress { payload: what, encoding: tok },
                None => RouteOutcome::Done(Response::build().body(what)),
            },
            None => RouteOutcome::Done(Response::build().body(what)),
        }
    } else if starts_with_vec(uri, &path_files_prefix_vec()) {
        let name = last_segment_vec(uri);
        match *req.method() {
            Method::Get => RouteOutcome::ReadFile { name: name },
            Method::Post => RouteOutcome::WriteFile {
                name: name,
                contents: copy_vec(req.body()),
            },
        }
    } else {
        RouteOutcome::Done(Response::build().status(404).body(Vec::new()))
    }
}

/// Finish the echo route after compression: whatever bytes the external
/// compressor produced become the body, under the negotiated encoding.
pub fn echo_compressed(encoding: &Vec<u8>, compressed: Vec<u8>) -> (r: Response)
    ensures
        r@ == spec_echo_compressed(encoding@, compressed@),
{
    proof {
        assert(lower_seq(name_content_encoding()) =~= name_content_encoding());
    }
    let name = name_content_encoding_vec();
    Response::build().header(&name, encoding).body(compressed)
}

/// Finish a file read: the file's bytes under the binary content type when
/// it was found, else 404 with an empty body.
pub fn file_read_response(found: Option<Vec<u8>>) -> (r: Response)
    ensures
        (match found {
            Some(buf) => r@ == finalize_response(octet_stream_head(), buf@),
            None => r@ == finalize_response(with_status(default_response_head(), 404), Seq::empty()),
        }),
{
    proof {
        assert(lower_seq(name_content_type()) =~= name_content_type());
        crate::bytes::lemma_trim_noop(val_octet_stream());
    }
    match found {
        Some(buf) => {
            let name = name_content_type_vec();
            let value = val_octet_stream_vec();
            Response::build().header(&name, &value).body(buf)
        },
        None => Response::build().status(404).body(Vec::new()),
    }
}

/// Finish a file write that succeeded: 201 Created, empty body. A failed
/// write never reaches here; it is fatal to the connection.
pub fn file_write_response() -> (r: Response)
    ensures
        r@ == finalize_response(with_status(default_response_head(), 201), Seq::empty()),
{
    Response::build().status(201).body(Vec::new())
}

} // verus!
