//! The response serializer: a response to its exact wire bytes.

use crate::http::{utf8, HttpResponse, ResponseModel};
use vstd::prelude::*;
use vstd::string::StringExecFns;

verus! {

/// The character of a decimal digit.
pub open spec fn digit_char(digit: nat) -> char {
    if digit == 0 {
        '0'
    } else if digit == 1 {
        '1'
    } else if digit == 2 {
        '2'
    } else if digit == 3 {
        '3'
    } else if digit == 4 {
        '4'
    } else if digit == 5 {
        '5'
    } else if digit == 6 {
        '6'
    } else if digit == 7 {
        '7'
    } else if digit == 8 {
        '8'
    } else {
        '9'
    }
}

/// A number in decimal, without leading zeros.
pub open spec fn decimal(n: nat) -> Seq<char>
    decreases n,
{
    if n < 10 {
        seq![digit_char(n)]
    } else {
        decimal(n / 10).push(digit_char(n % 10))
    }
}

/// The header lines of the first `upto` pairs: `name: value\r\n` each.
pub open spec fn header_lines(pairs: Seq<(Seq<char>, Seq<char>)>, upto: int) -> Seq<char>
    decreases upto,
{
    if upto <= 0 {
        Seq::empty()
    } else {
        header_lines(pairs, upto - 1) + pairs[upto - 1].0 + ": "@ + pairs[upto - 1].1 + "\r\n"@
    }
}

/// The status line `HTTP/1.1 <code> <message>\r\n`.
pub open spec fn status_line(response: ResponseModel) -> Seq<char> {
    "HTTP/1.1 "@ + decimal(response.status_code) + " "@ + response.status_message + "\r\n"@
}

/// Everything before the body: status line, header lines, an empty line.
pub open spec fn head_text(response: ResponseModel) -> Seq<char> {
    status_line(response) + header_lines(response.headers, response.headers.len() as int)
        + "\r\n"@
}

/// The wire form of a response: the head in UTF-8, then the body bytes as
/// they are, with nothing after them.
pub open spec fn wire_bytes(response: ResponseModel) -> Seq<u8> {
    utf8(head_text(response)) + response.body
}

fn digit_text(digit: u16) -> (text: &'static str)
    requires
        digit < 10,
    ensures
        text@ == seq![digit_char(digit as nat)],
{
    proof {
        reveal_strlit("0");
        reveal_strlit("1");
        reveal_strlit("2");
        reveal_strlit("3");
        reveal_strlit("4");
        reveal_strlit("5");
        reveal_strlit("6");
        reveal_strlit("7");
        reveal_strlit("8");
        reveal_strlit("9");
    }
    let text = match digit {
        0 => "0",
        1 => "1",
        2 => "2",
        3 => "3",
        4 => "4",
        5 => "5",
        6 => "6",
        7 => "7",
        8 => "8",
        _ => "9",
    };
    assert(text@ =~= seq![digit_char(digit as nat)]);
    text
}

fn append_decimal(out: &mut String, n: u16)
    ensures
        final(out)@ == old(out)@ + decimal(n as nat),
    decreases n,
{
    if n >= 10 {
        append_decimal(out, n / 10);
    }
    out.append(digit_text(n % 10));
    assert(out@ =~= old(out)@ + decimal(n as nat));
}

/// The head of `response` as text.
pub fn response_head(response: &HttpResponse) -> (head: String)
    ensures
        head@ == head_text(response@),
{
    let mut head = String::from_str("HTTP/1.1 ");
    append_decimal(&mut head, response.status_code);
    head.append(" ");
    head.append(response.status_message.as_str());
    head.append("\r\n");
    assert(head@ =~= status_line(response@));
    let ghost pairs = response.headers.pairs();
    let count = response.headers.len();
    let mut i: usize = 0;
    while i < count
        invariant
            i <= count,
            count == pairs.len(),
            pairs == response.headers.pairs(),
            head@ == status_line(response@) + header_lines(pairs, i as int),
        decreases count - i,
    {
        let ghost before = head@;
        let header = response.headers.entry(i);
        head.append(header.name.as_str());
        head.append(": ");
        head.append(header.value.as_str());
        head.append("\r\n");
        i += 1;
        assert(head@ =~= status_line(response@) + header_lines(pairs, i as int));
    }
    head.append("\r\n");
    head
}

/// Appends the wire form of `response` to `out`.
pub fn write_response(out: &mut Vec<u8>, response: &HttpResponse)
    ensures
        final(out)@ == old(out)@ + wire_bytes(response@),
{
    let head = response_head(response);
    out.extend_from_slice(head.as_str().as_bytes());
    out.extend_from_slice(response.body.as_slice());
    assert(out@ =~= old(out)@ + wire_bytes(response@));
}

} // verus!
