//! One exchange on a connection: the bytes read in, the bytes to write back.

use crate::http::{bad_request_model, HttpRequest, HttpResponse};
use crate::parser::{decoded_text, parse_request, parse_text, parsed_as, ParseError};
use crate::router::Router;
use crate::wire::{wire_bytes, write_response};
use vstd::prelude::*;

verus! {

/// How many bytes of a request are read from a connection. What a client
/// sends beyond this is never looked at.
pub const READ_CAPACITY: usize = 1024;

/// Whether `response` may answer the outcome `parsed` of parsing: what the
/// router dispatches for a request, the fixed 400 for a failure.
pub open spec fn answers<H: Fn(&HttpRequest) -> HttpResponse>(
    router: &Router<H>,
    parsed: Result<HttpRequest, ParseError>,
    response: HttpResponse,
) -> bool {
    match parsed {
        Ok(request) => router.dispatches(&request, response),
        Err(_) => response@ == bad_request_model(),
    }
}

/// An exchange on `input` that ended with `output`: `parsed` is what the
/// parser made of the input, `response` what was answered, `output` its
/// wire bytes.
pub open spec fn exchange<H: Fn(&HttpRequest) -> HttpResponse>(
    router: &Router<H>,
    input: Seq<u8>,
    parsed: Result<HttpRequest, ParseError>,
    response: HttpResponse,
    output: Seq<u8>,
) -> bool {
    &&& parsed_as(parsed, parse_text(decoded_text(input)))
    &&& answers(router, parsed, response)
    &&& output == wire_bytes(response@)
}

/// The response to the outcome of parsing a request.
pub fn respond<H: Fn(&HttpRequest) -> HttpResponse>(
    router: &Router<H>,
    parsed: &Result<HttpRequest, ParseError>,
) -> (response: HttpResponse)
    requires
        router.wf(),
    ensures
        answers(router, *parsed, response),
{
    match parsed {
        Ok(request) => router.handle_request(request),
        Err(_) => HttpResponse::bad_request(),
    }
}

/// Handles one exchange: parses `input`, dispatches the request and
/// returns the wire bytes of the response. Input that does not parse is
/// answered with the fixed 400 and reaches no handler.
pub fn handle_connection<H: Fn(&HttpRequest) -> HttpResponse>(
    input: &[u8],
    router: &Router<H>,
) -> (output: Vec<u8>)
    requires
        router.wf(),
    ensures
        exists|parsed: Result<HttpRequest, ParseError>, response: HttpResponse|
            exchange(router, input@, parsed, response, output@),
{
    let parsed = parse_request(input);
    let response = respond(router, &parsed);
    let mut output: Vec<u8> = Vec::new();
    write_response(&mut output, &response);
    assert(output@ =~= wire_bytes(response@));
    assert(exchange(router, input@, parsed, response, output@));
    output
}

} // verus!
