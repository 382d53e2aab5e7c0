//! The wire-to-request parser, one line at a time.
//!
//! The caller (the connection loop, outside this crate) reads raw lines
//! from its buffered stream and hands them here: first the request line,
//! then the header lines up to the blank one, and finally the body bytes
//! it read according to the declared Content-Length. Everything that
//! interprets those bytes happens in this module.

use vstd::prelude::*;

use crate::bytes::{split_ws, split_ws_vec, find_byte, find_byte_vec, lower_seq, trim_seq,
    all_digits, dec_value, all_ws, is_blank, subrange_vec, parse_dec, COLON};
use crate::headers::{spec_insert, spec_get};
use crate::request::{Method, method_of_token, Request, RequestBuilder, RequestHeadView,
    RequestView, head_wf};
use crate::tokens::{name_content_length, name_content_length_vec, tok_get_vec, tok_get_lower_vec,
    tok_post_vec, tok_post_lower_vec};

verus! {

/// Why a request could not be read off the wire. Every variant is fatal to
/// its connection: no response is sent for a request that never parsed.
#[derive(Clone, Copy, PartialEq, Eq, Structural, Debug)]
pub enum ParseError {
    /// The request line held fewer than three tokens.
    MalformedStartLine,
    /// The method token is not a supported method.
    UnsupportedMethod,
    /// A header line had no colon.
    MalformedHeader,
    /// The Content-Length value is not a representable decimal numeral.
    InvalidContentLength,
    /// The stream ended before the declared body length arrived.
    TruncatedBody,
}

/// What parsing a request line does to a builder's head: the line is split
/// on ASCII whitespace; the first three tokens become method, target and
/// version, and any further tokens are ignored.
pub open spec fn spec_parse_request_line(h: RequestHeadView, line: Seq<u8>) -> Result<
    RequestHeadView,
    ParseError,
> {
    let toks = split_ws(line);
    if toks.len() < 3 {
        Err(ParseError::MalformedStartLine)
    } else if method_of_token(toks[0]) is None {
        Err(ParseError::UnsupportedMethod)
    } else {
        Ok(RequestHeadView {
            method: method_of_token(toks[0])->0,
            uri: toks[1],
            version: toks[2],
            headers: h.headers,
        })
    }
}

/// What parsing a block of header lines does to a header map: each line is
/// split at its first colon, the name is normalized, the value trimmed,
/// and the entry stored; a line without a colon stops everything.
pub open spec fn spec_parse_headers(m: Seq<(Seq<u8>, Seq<u8>)>, lines: Seq<Seq<u8>>) -> Result<
    Seq<(Seq<u8>, Seq<u8>)>,
    ParseError,
>
    decreases lines.len(),
{
    if lines.len() == 0 {
        Ok(m)
    } else {
        let line = lines[0];
        let i = find_byte(line, COLON);
        if i < 0 {
            Err(ParseError::MalformedHeader)
        } else {
            spec_parse_headers(
                spec_insert(
                    m,
                    lower_seq(line.subrange(0, i)),
                    trim_seq(line.subrange(i + 1, line.len() as int)),
                ),
                lines.drop_first(),
            )
        }
    }
}

/// The declared body length of a head: absent Content-Length means no
/// body; a present one must be a decimal numeral that fits a `usize`.
pub open spec fn spec_body_length(m: Seq<(Seq<u8>, Seq<u8>)>) -> Result<Option<int>, ParseError> {
    match spec_get(m, name_content_length()) {
        None => Ok(None),
        Some(v) => if all_digits(v) && dec_value(v) <= usize::MAX {
            Ok(Some(dec_value(v)))
        } else {
            Err(ParseError::InvalidContentLength)
        },
    }
}

/// The method named by a request-line token, if it is a supported one.
pub fn parse_method(tok: &Vec<u8>) -> (r: Option<Method>)
    ensures
        r == method_of_token(tok@),
{
    if crate::bytes::eq_bytes(tok, &tok_get_vec()) || crate::bytes::eq_bytes(
        tok,
        &tok_get_lower_vec(),
    ) {
        Some(Method::Get)
    } else if crate::bytes::eq_bytes(tok, &tok_post_vec()) || crate::bytes::eq_bytes(
        tok,
        &tok_post_lower_vec(),
    ) {
        Some(Method::Post)
    } else {
        None
    }
}

/// Read method, target and version off the raw request line (terminator
/// included, if any: it is whitespace and falls away with the split).
pub fn parse_request_line(builder: RequestBuilder, line: &Vec<u8>) -> (r: Result<
    RequestBuilder,
    ParseError,
>)
    ensures
        (match r {
            Ok(b) => spec_parse_request_line(builder@, line@) == Ok::<RequestHeadView, ParseError>(b@),
            Err(e) => spec_parse_request_line(builder@, line@) == Err::<RequestHeadView,
                ParseError,
            >(e),
        }),
{
    let toks = split_ws_vec(line);
    proof {
        assert(forall|j: int| 0 <= j < toks@.len() ==> toks.deep_view()[j] == toks@[j]@);
    }
    if toks.len() < 3 {
        return Err(ParseError::MalformedStartLine);
    }
    match parse_method(&toks[0]) {
        None => Err(ParseError::UnsupportedMethod),
        Some(_) => Ok(builder.method(&toks[0]).uri(&toks[1]).version(&toks[2])),
    }
}

/// Is this raw line the blank line that ends the header block?
pub fn is_blank_line(line: &Vec<u8>) -> (r: bool)
    ensures
        r == all_ws(line@),
{
    is_blank(line)
}

/// Store each raw header line of the block into the builder: the line is
/// split at its first colon into name and value.
pub fn parse_headers(builder: RequestBuilder, lines: &Vec<Vec<u8>>) -> (r: Result<
    RequestBuilder,
    ParseError,
>)
    requires
        head_wf(builder@),
    ensures
        (match r {
            Ok(b) => spec_parse_headers(builder@.headers, lines.deep_view()) == Ok::<Seq<(Seq<u8>, Seq<u8>)>, ParseError>(b@.headers)
                && b@ == (RequestHeadView { headers: b@.headers, ..builder@ }) && head_wf(b@),
            Err(e) => spec_parse_headers(builder@.headers, lines.deep_view()) == Err::<
                Seq<(Seq<u8>, Seq<u8>)>,
                ParseError,
            >(e),
        }),
{
    let ghost all_lines = lines.deep_view();
    let mut b = builder;
    let mut i: usize = 0;
    proof {
        assert(all_lines.skip(0) =~= all_lines);
    }
    while i < lines.len()
        invariant
            head_wf(b@),
            i <= lines@.len(),
            all_lines == lines.deep_view(),
            all_lines.len() == lines@.len(),
            forall|j: int| 0 <= j < all_lines.len() ==> all_lines[j] == lines@[j]@,
            b@ == (RequestHeadView { headers: b@.headers, ..builder@ }),
            spec_parse_headers(builder@.headers, all_lines) == spec_parse_headers(
                b@.headers,
                all_lines.skip(i as int),
            ),
        decreases lines@.len() - i,
    {
        let line = &lines[i];
        let ghost rest = all_lines.skip(i as int);
        proof {
            assert(rest[0] == line@);
            assert(rest.drop_first() =~= all_lines.skip(i + 1));
        }
        match find_byte_vec(line, COLON) {
            None => {
                return Err(ParseError::MalformedHeader);
            },
            Some(ci) => {
                let line_len = line.len();
                assert(ci < line_len);
                let name = subrange_vec(line, 0, ci);
                let value = subrange_vec(line, ci + 1, line_len);
                b = b.header(&name, &value);
            },
        }
        i = i + 1;
    }
    proof {
        assert(all_lines.skip(all_lines.len() as int) =~= Seq::<Seq<u8>>::empty());
    }
    Ok(b)
}

/// The number of body bytes the builder's headers call for, to be read
/// from the stream: `None` when no Content-Length header is present.
pub fn body_length(builder: &RequestBuilder) -> (r: Result<Option<usize>, ParseError>)
    ensures
        (match r {
            Ok(Some(n)) => spec_body_length(builder@.headers) == Ok::<Option<int>, ParseError>(Some(n as int)),
            Ok(None) => spec_body_length(builder@.headers) == Ok::<Option<int>, ParseError>(Option::<int>::None),
            Err(e) => spec_body_length(builder@.headers) == Err::<Option<int>, ParseError>(e),
        }),
{
    let name = name_content_length_vec();
    proof {
        assert(lower_seq(name_content_length()) =~= name_content_length());
    }
    match builder.peek_header(&name) {
        None => Ok(None),
        Some(v) => match parse_dec(v) {
            Some(n) => Ok(Some(n)),
            None => Err(ParseError::InvalidContentLength),
        },
    }
}

/// Freeze the parsed head together with the body bytes that were read.
/// The stream must have yielded exactly the declared count: fewer bytes
/// mean the body was cut off and the request never existed.
pub fn attach_body(builder: RequestBuilder, declared: usize, data: Vec<u8>) -> (r: Result<
    Request,
    ParseError,
>)
    ensures
        (match r {
            Ok(req) => data@.len() == declared && req@ == (RequestView {
                head: builder@,
                body: data@,
            }),
            Err(e) => data@.len() != declared && e == ParseError::TruncatedBody,
        }),
{
    if data.len() != declared {
        return Err(ParseError::TruncatedBody);
    }
    Ok(builder.body(data))
}

} // verus!
