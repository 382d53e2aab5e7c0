//! The immutable response value, its builder, and the byte-exact renderer.
//!
//! A builder starts from the defaults (version HTTP/1.1, status 200 OK,
//! Content-Type text/plain) and is frozen by the terminal `body` call,
//! which records a Content-Length header computed from the stored body —
//! the renderer never recomputes it.

use vstd::prelude::*;

use crate::bytes::{lower_seq, trim_seq, dec_digits, append_vec, usize_to_dec, SP, CR, LF, COLON,
    lemma_trim_noop, lemma_dec_digits_digits, contains_bytes};
use crate::headers::{HeaderMap, spec_insert, spec_get, wf, lemma_get_insert_same,
    lemma_get_insert_other, lemma_get_some_position};
use crate::tokens::{http_version, http_version_vec, status_ok, status_ok_vec, status_created,
    status_created_vec, status_not_found, status_not_found_vec, name_content_type,
    name_content_type_vec, val_text_plain, val_text_plain_vec, name_content_length,
    name_content_length_vec};

verus! {

/// The head of a response: version, status line, headers.
pub struct ResponseHead {
    version: Vec<u8>,
    status: Vec<u8>,
    headers: HeaderMap,
}

/// The mathematical content of a response head.
pub struct ResponseHeadView {
    pub version: Seq<u8>,
    pub status: Seq<u8>,
    pub headers: Seq<(Seq<u8>, Seq<u8>)>,
}

/// An immutable response: a frozen head plus the body bytes.
pub struct Response {
    head: ResponseHead,
    body: Vec<u8>,
}

/// The mathematical content of a full response.
pub struct ResponseView {
    pub head: ResponseHeadView,
    pub body: Seq<u8>,
}

/// A response under construction.
pub struct ResponseBuilder {
    head: ResponseHead,
}

impl View for ResponseBuilder {
    type V = ResponseHeadView;

    closed spec fn view(&self) -> ResponseHeadView {
        ResponseHeadView {
            version: self.head.version@,
            status: self.head.status@,
            headers: self.head.headers@,
        }
    }
}

impl View for Response {
    type V = ResponseView;

    closed spec fn view(&self) -> ResponseView {
        ResponseView {
            head: ResponseHeadView {
                version: self.head.version@,
                status: self.head.status@,
                headers: self.head.headers@,
            },
            body: self.body@,
        }
    }
}

/// Validity of a response head: its header map is well-formed.
pub open spec fn resp_head_wf(h: ResponseHeadView) -> bool {
    wf(h.headers)
}

/// The head every builder starts from: version HTTP/1.1, status 200 OK,
/// and a Content-Type of text/plain.
pub open spec fn default_response_head() -> ResponseHeadView {
    ResponseHeadView {
        version: http_version(),
        status: status_ok(),
        headers: seq![(name_content_type(), val_text_plain())],
    }
}

/// The status line a supported status code renders as.
pub open spec fn status_line(code: u16) -> Seq<u8> {
    if code == 200 {
        status_ok()
    } else if code == 201 {
        status_created()
    } else {
        status_not_found()
    }
}

/// The response a builder head freezes into when given `body`: the head
/// gains a Content-Length entry holding the decimal length of the body.
pub open spec fn finalize_response(head: ResponseHeadView, body: Seq<u8>) -> ResponseView {
    ResponseView {
        head: ResponseHeadView {
            version: head.version,
            status: head.status,
            headers: spec_insert(head.headers, name_content_length(), dec_digits(body.len())),
        },
        body: body,
    }
}

/// One rendered header line: `name: value` followed by CRLF.
pub open spec fn header_line(e: (Seq<u8>, Seq<u8>)) -> Seq<u8> {
    e.0 + seq![COLON, SP] + e.1 + seq![CR, LF]
}

/// The rendered header block: each entry's line, in insertion order.
pub open spec fn render_header_block(hs: Seq<(Seq<u8>, Seq<u8>)>) -> Seq<u8>
    decreases hs.len(),
{
    if hs.len() == 0 {
        Seq::empty()
    } else {
        header_line(hs[0]) + render_header_block(hs.drop_first())
    }
}

/// The exact wire bytes of a response: status line, header block, blank
/// line, then the raw body.
pub open spec fn spec_render(r: ResponseView) -> Seq<u8> {
    r.head.version + seq![SP] + r.head.status + seq![CR, LF] + render_header_block(r.head.headers)
        + seq![CR, LF] + r.body
}

/// Appending an entry to the block appends its line.
pub proof fn lemma_render_block_push(hs: Seq<(Seq<u8>, Seq<u8>)>, e: (Seq<u8>, Seq<u8>))
    ensures
        render_header_block(hs.push(e)) == render_header_block(hs) + header_line(e),
    decreases hs.len(),
{
    if hs.len() == 0 {
        assert(hs.push(e).drop_first() =~= hs);
        assert(render_header_block(hs.push(e)) =~= render_header_block(hs) + header_line(e));
    } else {
        assert(hs.push(e).drop_first() =~= hs.drop_first().push(e));
        lemma_render_block_push(hs.drop_first(), e);
        assert(render_header_block(hs.push(e)) =~= render_header_block(hs) + header_line(e));
    }
}

impl Default for ResponseBuilder {
    /// A builder holding the default head.
    fn default() -> (r: ResponseBuilder)
        ensures
            r@ == default_response_head(),
            resp_head_wf(r@),
    {
        let mut headers = HeaderMap::new();
        let name = name_content_type_vec();
        let value = val_text_plain_vec();
        headers.insert(&name, &value);
        proof {
            assert(lower_seq(name_content_type()) =~= name_content_type());
            lemma_trim_noop(val_text_plain());
        }
        let r = ResponseBuilder {
            head: ResponseHead {
                version: http_version_vec(),
                status: status_ok_vec(),
                headers: headers,
            },
        };
        proof {
            assert(r@.headers =~= default_response_head().headers);
        }
        r
    }
}

impl Response {
    /// Start building a response from the defaults.
    pub fn build() -> (r: ResponseBuilder)
        ensures
            r@ == default_response_head(),
            resp_head_wf(r@),
    {
        ResponseBuilder::default()
    }

    /// The response's protocol version.
    pub fn version(&self) -> (r: &Vec<u8>)
        ensures
            r@ == self@.head.version,
    {
        &self.head.version
    }

    /// The response's status line.
    pub fn status(&self) -> (r: &Vec<u8>)
        ensures
            r@ == self@.head.status,
    {
        &self.head.status
    }

    /// Look a header up by name, case-insensitively.
    pub fn header(&self, name: &Vec<u8>) -> (r: Option<&Vec<u8>>)
        ensures
            (match r {
                Some(v) => spec_get(self@.head.headers, lower_seq(name@)) == Some(v@),
                None => spec_get(self@.head.headers, lower_seq(name@)) is None,
            }),
    {
        self.head.headers.get(name)
    }

    /// The response's body bytes.
    pub fn body(&self) -> (r: &Vec<u8>)
        ensures
            r@ == self@.body,
    {
        &self.body
    }

    /// Serialize the response into its exact wire bytes. The output is a
    /// function of the response value alone, so rendering an immutable
    /// response any number of times yields identical bytes.
    pub fn render(&self) -> (r: Vec<u8>)
        ensures
            r@ == spec_render(self@),
    {
        let mut out: Vec<u8> = Vec::new();
        append_vec(&mut out, &self.head.version);
        out.push(SP);
        append_vec(&mut out, &self.head.status);
        out.push(CR);
        out.push(LF);
        let ghost status_part = self@.head.version + seq![SP] + self@.head.status + seq![CR, LF];
        proof {
            assert(out@ =~= status_part + render_header_block(self@.head.headers.subrange(0, 0)));
        }
        let n = self.head.headers.len();
        let mut i: usize = 0;
        while i < n
            invariant
                n == self@.head.headers.len(),
                i <= n,
                out@ == status_part + render_header_block(
                    self@.head.headers.subrange(0, i as int),
                ),
            decreases n - i,
        {
            append_vec(&mut out, self.head.headers.name_at(i));
            out.push(COLON);
            out.push(SP);
            append_vec(&mut out, self.head.headers.value_at(i));
            out.push(CR);
            out.push(LF);
            proof {
                lemma_render_block_push(
                    self@.head.headers.subrange(0, i as int),
                    self@.head.headers[i as int],
                );
                assert(self@.head.headers.subrange(0, i + 1) =~= self@.head.headers.subrange(
                    0,
                    i as int,
                ).push(self@.head.headers[i as int]));
                assert(out@ =~= status_part + render_header_block(
                    self@.head.headers.subrange(0, i + 1),
                ));
            }
            i = i + 1;
        }
        out.push(CR);
        out.push(LF);
        append_vec(&mut out, &self.body);
        proof {
            assert(self@.head.headers.subrange(0, self@.head.headers.len() as int)
                =~= self@.head.headers);
            assert(out@ =~= spec_render(self@));
        }
        out
    }
}

impl ResponseBuilder {
    /// Set the status line from a supported status code; other codes are a
    /// programming error, not a runtime path.
    pub fn status(self, code: u16) -> (r: ResponseBuilder)
        requires
            code == 200 || code == 201 || code == 404,
        ensures
            r@ == (ResponseHeadView { status: status_line(code), ..self@ }),
    {
        let status: Vec<u8> = if code == 200 {
            status_ok_vec()
        } else if code == 201 {
            status_created_vec()
        } else {
            status_not_found_vec()
        };
        let mut this = self;
        this.head.status = status;
        this
    }

    /// Add a header; the name is normalized and the value trimmed, and an
    /// existing entry for the same name is overwritten.
    pub fn header(self, name: &Vec<u8>, value: &Vec<u8>) -> (r: ResponseBuilder)
        requires
            resp_head_wf(self@),
        ensures
            r@ == (ResponseHeadView {
                headers: spec_insert(self@.headers, lower_seq(name@), trim_seq(value@)),
                ..self@
            }),
            resp_head_wf(r@),
    {
        let mut this = self;
        this.head.headers.insert(name, value);
        this
    }

    /// Freeze the builder into an immutable response carrying `body`,
    /// recording a Content-Length header that holds the decimal length of
    /// the body actually stored.
    pub fn body(self, body: Vec<u8>) -> (r: Response)
        requires
            resp_head_wf(self@),
        ensures
            r@ == finalize_response(self@, body@),
            resp_head_wf(r@.head),
    {
        let len = usize_to_dec(body.len());
        let name = name_content_length_vec();
        let this = self.header(&name, &len);
        proof {
            assert(lower_seq(name_content_length()) =~= name_content_length());
            lemma_dec_digits_digits(body@.len());
            lemma_trim_noop(dec_digits(body@.len()));
        }
        Response { head: this.head, body: body }
    }
}

/// The block of a concatenation is the concatenation of the blocks.
proof fn lemma_render_block_concat(a: Seq<(Seq<u8>, Seq<u8>)>, b: Seq<(Seq<u8>, Seq<u8>)>)
    ensures
        render_header_block(a + b) == render_header_block(a) + render_header_block(b),
    decreases a.len(),
{
    if a.len() == 0 {
        assert(a + b =~= b);
        assert(render_header_block(a) + render_header_block(b) =~= render_header_block(b));
    } else {
        assert((a + b)[0] == a[0]);
        assert((a + b).drop_first() =~= a.drop_first() + b);
        lemma_render_block_concat(a.drop_first(), b);
        assert(render_header_block(a + b) =~= render_header_block(a) + render_header_block(b));
    }
}

/// Freezing a builder with body `b` records a Content-Length entry whose
/// value is the decimal numeral of `b`'s length, while every other header
/// keeps its entry; the rendered wire bytes carry that Content-Length as a
/// header line and end with exactly `b`.
pub proof fn lemma_body_round_trip(head: ResponseHeadView, b: Seq<u8>)
    ensures
        spec_get(finalize_response(head, b).head.headers, name_content_length()) == Some(
            dec_digits(b.len()),
        ),
        forall|other: Seq<u8>|
            other != name_content_length() ==> spec_get(
                finalize_response(head, b).head.headers,
                other,
            ) == spec_get(head.headers, other),
        contains_bytes(
            spec_render(finalize_response(head, b)),
            header_line((name_content_length(), dec_digits(b.len()))),
        ),
        spec_render(finalize_response(head, b)).len() >= b.len(),
        spec_render(finalize_response(head, b)).skip(
            spec_render(finalize_response(head, b)).len() - b.len() as int,
        ) == b,
{
    let cl = name_content_length();
    let dv = dec_digits(b.len());
    let r = finalize_response(head, b);
    let hs = r.head.headers;
    lemma_get_insert_same(head.headers, cl, dv);
    assert forall|other: Seq<u8>| other != cl implies spec_get(hs, other) == spec_get(
        head.headers,
        other,
    ) by {
        lemma_get_insert_other(head.headers, cl, dv, other);
    }
    assert(spec_render(r).skip(spec_render(r).len() - b.len() as int) =~= b);
    lemma_get_some_position(hs, cl);
    let i = choose|i: int| 0 <= i < hs.len() && hs[i] == (cl, dv);
    assert(hs =~= hs.subrange(0, i) + hs.subrange(i, hs.len() as int));
    lemma_render_block_concat(hs.subrange(0, i), hs.subrange(i, hs.len() as int));
    let tail = hs.subrange(i, hs.len() as int);
    assert(tail[0] == hs[i]);
    assert(tail.drop_first() =~= hs.subrange(i + 1, hs.len() as int));
    let line = header_line((cl, dv));
    let pre = r.head.version + seq![SP] + r.head.status + seq![CR, LF] + render_header_block(
        hs.subrange(0, i),
    );
    let post = render_header_block(hs.subrange(i + 1, hs.len() as int)) + seq![CR, LF] + b;
    assert(spec_render(r) =~= pre + line + post);
    assert(spec_render(r).subrange(pre.len() as int, (pre.len() + line.len()) as int) =~= line);
}

} // verus!
