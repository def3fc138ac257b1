//! Laws that relate the parser, the router, the serializer and the
//! exchange, each proved from the definitions in the other modules.

use crate::assoc::pairs_to_map;
use crate::concat::{ends_lines, lemma_concat_agree, lemma_first_blank_found, lemma_first_blank_is, lemma_headers_without, lemma_lines_concat, lemma_single_line, lemma_split_joined, no_line_feed, no_separator};
use crate::connection::exchange;
use crate::http::{bad_request_model, not_found_model, utf8, HttpRequest, HttpResponse, ResponseModel};
use crate::parser::{decoded_text, first_blank, headers_upto, parse_lines, parse_text, ParseError};
use crate::router::{RouteKey, Router};
use crate::text::{lemma_tokens_nonempty, lines, lines_from, split_header_spec, strip_cr, tokens};
use crate::wire::{decimal, head_text, header_lines, status_line, wire_bytes};
use vstd::prelude::*;

verus! {

/// A request that parses and whose (method, path) is registered is answered
/// by the registered handler, called on the parsed request; the output is
/// the wire form of what the handler returned, byte for byte.
pub proof fn law_registered_route_answers<H: Fn(&HttpRequest) -> HttpResponse>(
    router: &Router<H>,
    input: Seq<u8>,
    parsed: Result<HttpRequest, ParseError>,
    response: HttpResponse,
    output: Seq<u8>,
)
    requires
        exchange(router, input, parsed, response, output),
        parse_text(decoded_text(input)) is Ok,
        router@.contains_key(
            (
                parse_text(decoded_text(input))->Ok_0.method,
                parse_text(decoded_text(input))->Ok_0.path,
            ),
        ),
    ensures
        parsed is Ok,
        parsed->Ok_0@ == parse_text(decoded_text(input))->Ok_0,
        call_ensures(
            router@[(parsed->Ok_0.method@, parsed->Ok_0.path@)],
            (&parsed->Ok_0,),
            response,
        ),
        output == utf8(head_text(response@)) + response.body@,
{
}

/// A request that parses and whose (method, path) is not registered is
/// answered with exactly 404, "Not Found", no headers and the fixed body.
pub proof fn law_unregistered_route_is_not_found<H: Fn(&HttpRequest) -> HttpResponse>(
    router: &Router<H>,
    input: Seq<u8>,
    parsed: Result<HttpRequest, ParseError>,
    response: HttpResponse,
    output: Seq<u8>,
)
    requires
        exchange(router, input, parsed, response, output),
        parse_text(decoded_text(input)) is Ok,
        !router@.contains_key(
            (
                parse_text(decoded_text(input))->Ok_0.method,
                parse_text(decoded_text(input))->Ok_0.path,
            ),
        ),
    ensures
        response.status_code == 404,
        response.status_message@ == "Not Found"@,
        response.headers.pairs().len() == 0,
        response.body@ == utf8("404 - Route Not Found"@),
        output == utf8("HTTP/1.1 404 Not Found\r\n\r\n"@) + utf8("404 - Route Not Found"@),
{
    lemma_not_found_head();
}

/// An input whose first line holds fewer than three tokens (or that has no
/// line at all) is answered with exactly 400, "Bad Request", no headers and
/// the fixed body, whatever the router holds.
pub proof fn law_short_request_line_is_bad_request<H: Fn(&HttpRequest) -> HttpResponse>(
    router: &Router<H>,
    input: Seq<u8>,
    parsed: Result<HttpRequest, ParseError>,
    response: HttpResponse,
    output: Seq<u8>,
)
    requires
        exchange(router, input, parsed, response, output),
        lines(decoded_text(input)).len() == 0 || tokens(lines(decoded_text(input))[0]).len() < 3,
    ensures
        parsed == Err::<HttpRequest, ParseError>(ParseError::InvalidRequestLine),
        response.status_code == 400,
        response.status_message@ == "Bad Request"@,
        response.headers.pairs().len() == 0,
        response.body@ == utf8("400 - Bad Request"@),
        output == utf8("HTTP/1.1 400 Bad Request\r\n\r\n"@) + utf8("400 - Bad Request"@),
{
    lemma_bad_request_head();
}

/// Parsing fails exactly when the first line holds fewer than three tokens,
/// and a request that parses has a method and a path that are not empty.
pub proof fn law_parse_outcome(text: Seq<char>)
    ensures
        parse_text(text) is Err <==> (lines(text).len() == 0 || tokens(lines(text)[0]).len() < 3),
        parse_text(text) is Err ==> parse_text(text) == Err::<crate::http::RequestModel, ParseError>(
            ParseError::InvalidRequestLine,
        ),
        parse_text(text) is Ok ==> parse_text(text)->Ok_0.method.len() > 0 && parse_text(
            text,
        )->Ok_0.path.len() > 0,
{
    if parse_text(text) is Ok {
        let line = lines(text)[0];
        lemma_tokens_nonempty(line, 0, 0);
        lemma_tokens_nonempty(line, 0, 1);
    }
}

/// Registering a handler for a pair that already has one replaces it: the
/// table is as if only the later registration had been made, and a request
/// for that pair is answered by the later handler.
pub proof fn law_last_registration_wins<H: Fn(&HttpRequest) -> HttpResponse>(
    before: &Router<H>,
    between: &Router<H>,
    after: &Router<H>,
    key: RouteKey,
    earlier: H,
    later: H,
    request: &HttpRequest,
    response: HttpResponse,
)
    requires
        between@ == before@.insert(key, earlier),
        after@ == between@.insert(key, later),
        (request.method@, request.path@) == key,
        after.dispatches(request, response),
    ensures
        after@ == before@.insert(key, later),
        after@[key] == later,
        call_ensures(later, (request,), response),
{
    assert(before@.insert(key, earlier).insert(key, later) =~= before@.insert(key, later));
}

/// The head of the fixed 404 response.
pub proof fn lemma_not_found_head()
    ensures
        head_text(not_found_model()) == "HTTP/1.1 404 Not Found\r\n\r\n"@,
{
    reveal_strlit("HTTP/1.1 404 Not Found\r\n\r\n");
    reveal_strlit("HTTP/1.1 ");
    reveal_strlit(" ");
    reveal_strlit("Not Found");
    reveal_strlit("\r\n");
    reveal_with_fuel(decimal, 3);
    assert(decimal(404) =~= seq!['4', '0', '4']);
    assert(head_text(not_found_model()) =~= "HTTP/1.1 404 Not Found\r\n\r\n"@);
}

/// The head of the fixed 400 response.
pub proof fn lemma_bad_request_head()
    ensures
        head_text(bad_request_model()) == "HTTP/1.1 400 Bad Request\r\n\r\n"@,
{
    reveal_strlit("HTTP/1.1 400 Bad Request\r\n\r\n");
    reveal_strlit("HTTP/1.1 ");
    reveal_strlit(" ");
    reveal_strlit("Bad Request");
    reveal_strlit("\r\n");
    reveal_with_fuel(decimal, 3);
    assert(decimal(400) =~= seq!['4', '0', '0']);
    assert(head_text(bad_request_model()) =~= "HTTP/1.1 400 Bad Request\r\n\r\n"@);
}

/// A line in the header section that holds no `": "` is dropped: the
/// request parses as if the line were not there, headers and body alike.
pub proof fn law_line_without_separator_is_dropped(lines: Seq<Seq<char>>, at: int)
    requires
        1 <= at < first_blank(lines, 1),
        split_header_spec(lines[at]) is None,
    ensures
        parse_lines(lines.remove(at)) == parse_lines(lines),
{
    let fewer = lines.remove(at);
    let blank = first_blank(lines, 1);
    lemma_first_blank_found(lines, 1);
    assert(fewer[0] == lines[0]);
    assert forall|i: int| 1 <= i < blank - 1 implies fewer[i].len() > 0 by {
        if i < at {
            assert(fewer[i] == lines[i]);
        } else {
            assert(fewer[i] == lines[i + 1]);
        }
    }
    if blank < lines.len() {
        assert(fewer[blank - 1] == lines[blank]);
    }
    lemma_first_blank_is(fewer, 1, blank - 1);
    lemma_headers_without(lines, 1, at, blank);
    if blank < lines.len() {
        assert forall|i: int| blank <= i < fewer.len() implies #[trigger] fewer[i] == lines[i + 1] by {}
        lemma_concat_agree(fewer, lines, blank, fewer.len() as int, 1);
    }
}

/// The same on text: a line without `": "` that stands among the headers,
/// before any empty line, can be taken out of the request text with its
/// line feed, and the request parses to the same.
pub proof fn law_malformed_header_is_dropped(
    before: Seq<char>,
    line: Seq<char>,
    after: Seq<char>,
)
    requires
        before.len() > 0,
        before.last() == '\n',
        first_blank(lines(before), 1) == lines(before).len(),
        no_line_feed(line),
        strip_cr(line).len() > 0,
        split_header_spec(strip_cr(line)) is None,
    ensures
        parse_text(before + (line + seq!['\n']) + after) == parse_text(before + after),
{
    let head = lines(before);
    let kept = strip_cr(line);
    let tail = lines(after);
    let with = head + seq![kept] + tail;
    let at = head.len() as int;
    assert(lines_from(before, 0).len() >= 1);
    lemma_single_line(line);
    lemma_lines_concat(before, line + seq!['\n']);
    lemma_lines_concat(before + (line + seq!['\n']), after);
    lemma_lines_concat(before, after);
    assert(lines(before + (line + seq!['\n']) + after) == with);
    assert(with.remove(at) =~= head + tail);
    lemma_first_blank_found(head, 1);
    lemma_first_blank_found(with, 1);
    assert(with[at] == kept);
    assert forall|i: int| 1 <= i < at implies with[i].len() > 0 by {
        assert(with[i] == head[i]);
    }
    assert(first_blank(with, 1) > at);
    law_line_without_separator_is_dropped(with, at);
}

/// A header as it stands on a line: name, `": "`, value.
pub open spec fn header_line(pair: (Seq<char>, Seq<char>)) -> Seq<char> {
    pair.0 + seq![':', ' '] + pair.1
}

/// Whether a response can be read back from its wire form: no line feed in
/// the status message, in a header name or in a header value, and no `": "`
/// in a header name.
pub open spec fn line_safe(response: ResponseModel) -> bool {
    &&& no_line_feed(response.status_message)
    &&& forall|i: int|
        0 <= i < response.headers.len() ==> {
            &&& no_line_feed(#[trigger] response.headers[i].0)
            &&& no_separator(response.headers[i].0)
            &&& no_line_feed(response.headers[i].1)
        }
}

/// A decimal number holds no line feed.
pub proof fn lemma_decimal_no_line_feed(n: nat)
    ensures
        no_line_feed(decimal(n)),
    decreases n,
{
    if n >= 10 {
        lemma_decimal_no_line_feed(n / 10);
        let front = decimal(n / 10);
        assert forall|i: int| 0 <= i < decimal(n).len() implies decimal(n)[i] != '\n' by {
            if i < front.len() {
                assert(decimal(n)[i] == front[i]);
            }
        }
    }
}

/// The header lines of line-safe pairs split back into one line per pair.
pub proof fn lemma_header_lines_split(pairs: Seq<(Seq<char>, Seq<char>)>, upto: int)
    requires
        0 <= upto <= pairs.len(),
        forall|i: int|
            0 <= i < pairs.len() ==> no_line_feed(#[trigger] pairs[i].0) && no_line_feed(
                pairs[i].1,
            ),
    ensures
        ends_lines(header_lines(pairs, upto)),
        lines(header_lines(pairs, upto)) == Seq::new(
            upto as nat,
            |i: int| header_line(pairs[i]),
        ),
    decreases upto,
{
    reveal_strlit(": ");
    reveal_strlit("\r\n");
    let expected = Seq::new(upto as nat, |i: int| header_line(pairs[i]));
    if upto == 0 {
        assert(lines(header_lines(pairs, upto)) =~= expected);
    } else {
        lemma_header_lines_split(pairs, upto - 1);
        let earlier = header_lines(pairs, upto - 1);
        let pair = pairs[upto - 1];
        let open_line = header_line(pair) + seq!['\r'];
        assert(no_line_feed(pair.0) && no_line_feed(pair.1));
        assert(header_lines(pairs, upto) =~= earlier + (open_line + seq!['\n']));
        assert(open_line.drop_last() =~= header_line(pair));
        lemma_single_line(open_line);
        lemma_lines_concat(earlier, open_line + seq!['\n']);
        assert(lines(header_lines(pairs, upto)) =~= expected);
    }
}

/// Headers read from lines that hold one pair each are the map of the pairs.
pub proof fn lemma_headers_of_pairs(
    lines: Seq<Seq<char>>,
    pairs: Seq<(Seq<char>, Seq<char>)>,
    upto: int,
)
    requires
        0 <= upto <= pairs.len(),
        lines.len() > pairs.len(),
        forall|i: int|
            0 <= i < pairs.len() ==> no_separator(#[trigger] pairs[i].0) && lines[i + 1]
                == header_line(pairs[i]),
    ensures
        headers_upto(lines, 1, 1 + upto) == pairs_to_map(pairs.take(upto)),
    decreases upto,
{
    if upto > 0 {
        lemma_headers_of_pairs(lines, pairs, upto - 1);
        let pair = pairs[upto - 1];
        assert(no_separator(pair.0) && lines[upto - 1 + 1] == header_line(pair));
        lemma_split_joined(pair.0, pair.1);
        assert(pairs.take(upto).drop_last() =~= pairs.take(upto - 1));
        assert(pairs.take(upto).last() == pair);
    } else {
        assert(pairs.take(0).len() == 0);
    }
}

/// Round trip of headers: the head of a line-safe response, read as the
/// lines of a request, has one line per header between the status line and
/// the empty line, and the header table read from them is the response's
/// own, name for name and value for value. Where the status line passes for
/// a request line, the whole head parses to a request with these headers
/// and an empty body.
pub proof fn law_headers_round_trip(response: HttpResponse)
    requires
        line_safe(response@),
    ensures
        lines(head_text(response@)).len() == response@.headers.len() + 2,
        first_blank(lines(head_text(response@)), 1) == response@.headers.len() + 1,
        headers_upto(lines(head_text(response@)), 1, response@.headers.len() as int + 1)
            == response.headers@,
        parse_text(head_text(response@)) is Ok ==> {
            &&& parse_text(head_text(response@))->Ok_0.headers == response.headers@
            &&& parse_text(head_text(response@))->Ok_0.body == Seq::<char>::empty()
        },
{
    reveal_strlit("HTTP/1.1 ");
    reveal_strlit(" ");
    reveal_strlit("\r\n");
    let model = response@;
    let pairs = model.headers;
    let count = pairs.len() as int;
    let first = "HTTP/1.1 "@ + decimal(model.status_code) + " "@ + model.status_message;
    lemma_decimal_no_line_feed(model.status_code);
    assert(no_line_feed(first));
    let open_first = first + seq!['\r'];
    assert(status_line(model) =~= open_first + seq!['\n']);
    assert(open_first.drop_last() =~= first);
    lemma_single_line(open_first);
    let section = header_lines(pairs, count);
    lemma_header_lines_split(pairs, count);
    let closing = seq!['\r'] + seq!['\n'];
    assert("\r\n"@ =~= closing);
    assert(seq!['\r'].drop_last() =~= Seq::<char>::empty());
    lemma_single_line(seq!['\r']);
    lemma_lines_concat(section, closing);
    lemma_lines_concat(status_line(model), section + closing);
    assert(head_text(model) =~= status_line(model) + (section + closing));
    let all = lines(head_text(model));
    assert(all =~= seq![first] + (Seq::new(count as nat, |i: int| header_line(pairs[i]))
        + seq![Seq::<char>::empty()]));
    assert forall|i: int| 0 <= i < count implies no_separator(#[trigger] pairs[i].0) && all[i + 1]
        == header_line(pairs[i]) by {}
    assert forall|i: int| 1 <= i < count + 1 implies all[i].len() > 0 by {
        assert(all[i] == header_line(pairs[i - 1]));
    }
    lemma_first_blank_is(all, 1, count + 1);
    lemma_headers_of_pairs(all, pairs, count);
    assert(pairs.take(count) =~= pairs);
}

/// Round trip through the wire: the bytes of a line-safe response without
/// a body decode back to its head, so that reading them as a request gives
/// the response's own header table.
pub proof fn law_wire_round_trip(response: HttpResponse)
    requires
        line_safe(response@),
        response.body@.len() == 0,
    ensures
        decoded_text(wire_bytes(response@)) == head_text(response@),
        parse_text(decoded_text(wire_bytes(response@))) is Ok ==> parse_text(
            decoded_text(wire_bytes(response@)),
        )->Ok_0.headers == response.headers@,
{
    let head = head_text(response@);
    assert(wire_bytes(response@) =~= utf8(head));
    vstd::utf8::encode_utf8_valid_utf8(head);
    vstd::utf8::encode_utf8_decode_utf8(head);
    law_headers_round_trip(response);
}

} // verus!
