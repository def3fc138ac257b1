//! The request parser: decoded text to a request, or a parse failure.

use crate::http::{Headers, HttpRequest, RequestModel};
use crate::text::{lemma_tokens_nonempty, lines, split_header, split_header_spec, split_lines, split_whitespace, texts, tokens};
use vstd::prelude::*;
use vstd::string::StringExecFns;
use vstd::utf8::{decode_utf8, valid_utf8};

verus! {

/// Why a request could not be parsed.
#[derive(Debug, Clone, Copy, PartialEq, Eq, Structural)]
pub enum ParseError {
    /// The first line holds fewer than three white-space-separated tokens.
    InvalidRequestLine,
}

impl ParseError {
    /// What went wrong, in words.
    pub fn message(&self) -> (text: &'static str)
        ensures
            text@ == "Invalid request line"@,
    {
        match self {
            ParseError::InvalidRequestLine => "Invalid request line",
        }
    }
}

/// The text that a byte sequence which is not valid UTF-8 decodes to when
/// every invalid sequence in it is replaced by U+FFFD.
pub uninterp spec fn lossy_decode(bytes: Seq<u8>) -> Seq<char>;

/// The text that request bytes are read as: their UTF-8 decoding where they
/// are valid UTF-8, their lossy decoding where they are not.
pub open spec fn decoded_text(bytes: Seq<u8>) -> Seq<char> {
    if valid_utf8(bytes) {
        decode_utf8(bytes)
    } else {
        lossy_decode(bytes)
    }
}

/// `String::from_utf8_lossy`: valid UTF-8 decodes to the text it encodes;
/// of other input only this is claimed, that the text is a function of the
/// bytes alone, named `lossy_decode`.
#[verifier::external_body]
fn decode_lossy(bytes: &[u8]) -> (text: String)
    ensures
        valid_utf8(bytes@) ==> text@ == decode_utf8(bytes@),
        !valid_utf8(bytes@) ==> text@ == lossy_decode(bytes@),
{
    String::from_utf8_lossy(bytes).into_owned()
}

/// Index of the first empty line at or after `from`, or the number of lines
/// where there is none.
pub open spec fn first_blank(lines: Seq<Seq<char>>, from: int) -> int
    decreases lines.len() - from,
{
    if from < 0 || from >= lines.len() {
        lines.len() as int
    } else if lines[from].len() == 0 {
        from
    } else {
        first_blank(lines, from + 1)
    }
}

/// The header table read from the lines `from..to`: each line that holds
/// `": "` sets its name to its value, later lines overriding earlier ones;
/// the other lines are passed over.
pub open spec fn headers_upto(lines: Seq<Seq<char>>, from: int, to: int) -> Map<
    Seq<char>,
    Seq<char>,
>
    decreases to - from,
{
    if to <= from {
        Map::empty()
    } else {
        let earlier = headers_upto(lines, from, to - 1);
        match split_header_spec(lines[to - 1]) {
            Some(pair) => earlier.insert(pair.0, pair.1),
            None => earlier,
        }
    }
}

/// The lines `from..to` joined with nothing between them.
pub open spec fn concat_upto(lines: Seq<Seq<char>>, from: int, to: int) -> Seq<char>
    decreases to - from,
{
    if to <= from {
        Seq::empty()
    } else {
        concat_upto(lines, from, to - 1) + lines[to - 1]
    }
}

/// What a request split into lines parses to. The first line must hold at
/// least three tokens: method, path, and a version that is not kept. The
/// lines up to the first empty one are headers; all lines after it, joined,
/// are the body.
pub open spec fn parse_lines(lines: Seq<Seq<char>>) -> Result<RequestModel, ParseError> {
    let request_line = if lines.len() > 0 {
        tokens(lines[0])
    } else {
        Seq::empty()
    };
    if request_line.len() < 3 {
        Err(ParseError::InvalidRequestLine)
    } else {
        let blank = first_blank(lines, 1);
        Ok(
            RequestModel {
                method: request_line[0],
                path: request_line[1],
                headers: headers_upto(lines, 1, blank),
                body: concat_upto(lines, blank + 1, lines.len() as int),
            },
        )
    }
}

/// What a request text parses to.
pub open spec fn parse_text(text: Seq<char>) -> Result<RequestModel, ParseError> {
    parse_lines(lines(text))
}

/// Whether `result` is what `expected` asks for: the same failure, or a
/// request with that content, a header table without repeated names, and a
/// method and a path that are not empty.
pub open spec fn parsed_as(
    result: Result<HttpRequest, ParseError>,
    expected: Result<RequestModel, ParseError>,
) -> bool {
    match expected {
        Ok(model) => {
            &&& result is Ok
            &&& result->Ok_0@ == model
            &&& result->Ok_0.headers.wf()
            &&& result->Ok_0.method@.len() > 0
            &&& result->Ok_0.path@.len() > 0
        },
        Err(error) => result == Err::<HttpRequest, ParseError>(error),
    }
}

/// Reads the header lines `lines[1..]` up to the first empty line. Returns
/// the table and the index of that empty line (or the number of lines).
fn read_headers(lines: &Vec<String>) -> (result: (Headers, usize))
    requires
        lines@.len() >= 1,
    ensures
        result.0.wf(),
        result.1 == first_blank(texts(lines@), 1),
        result.0@ == headers_upto(texts(lines@), 1, result.1 as int),
        1 <= result.1 <= lines@.len(),
{
    let ghost all = texts(lines@);
    let mut headers = Headers::new();
    let mut i: usize = 1;
    while i < lines.len() && !lines[i].as_str().is_empty()
        invariant
            1 <= i <= lines@.len(),
            all == texts(lines@),
            headers.wf(),
            first_blank(all, 1) == first_blank(all, i as int),
            headers@ == headers_upto(all, 1, i as int),
        decreases lines@.len() - i,
    {
        assert(all[i as int] == lines@[i as int]@);
        match split_header(lines[i].as_str()) {
            Some((name, value)) => {
                headers.insert(name, value);
            },
            None => {},
        }
        i += 1;
    }
    proof {
        if i < lines@.len() {
            assert(all[i as int] == lines@[i as int]@);
        }
    }
    (headers, i)
}

/// Joins the lines `lines[from..]` with nothing between them.
fn join_lines(lines: &Vec<String>, from: usize) -> (body: String)
    requires
        from <= lines@.len(),
    ensures
        body@ == concat_upto(texts(lines@), from as int, lines@.len() as int),
{
    let ghost all = texts(lines@);
    let mut body = String::new();
    let mut i: usize = from;
    while i < lines.len()
        invariant
            from <= i <= lines@.len(),
            all == texts(lines@),
            body@ == concat_upto(all, from as int, i as int),
        decreases lines@.len() - i,
    {
        assert(all[i as int] == lines@[i as int]@);
        body.append(lines[i].as_str());
        i += 1;
    }
    body
}

/// Parses a request that is already decoded to text.
pub fn parse_request_text(text: &str) -> (result: Result<HttpRequest, ParseError>)
    ensures
        parsed_as(result, parse_text(text@)),
{
    let lines = split_lines(text);
    if lines.len() == 0 {
        return Err(ParseError::InvalidRequestLine);
    }
    assert(texts(lines@)[0] == lines@[0]@);
    let parts = split_whitespace(lines[0].as_str());
    if parts.len() < 3 {
        return Err(ParseError::InvalidRequestLine);
    }
    assert(texts(parts@)[0] == parts@[0]@);
    assert(texts(parts@)[1] == parts@[1]@);
    proof {
        lemma_tokens_nonempty(lines@[0]@, 0, 0);
        lemma_tokens_nonempty(lines@[0]@, 0, 1);
    }
    let method = parts[0].clone();
    let path = parts[1].clone();
    let (headers, blank) = read_headers(&lines);
    let body = if blank < lines.len() {
        join_lines(&lines, blank + 1)
    } else {
        String::new()
    };
    Ok(HttpRequest { method, path, headers, body })
}

/// Parses the bytes read from a connection: decodes them as UTF-8,
/// replacing what is invalid, and parses the text.
pub fn parse_request(bytes: &[u8]) -> (result: Result<HttpRequest, ParseError>)
    ensures
        parsed_as(result, parse_text(decoded_text(bytes@))),
{
    let text = decode_lossy(bytes);
    parse_request_text(text.as_str())
}

} // verus!
