use http_server::parser::{parse_request, parse_request_text, ParseError};

#[test]
fn parses_request_line_headers_and_body() {
    let request =
        parse_request(b"POST /items HTTP/1.1\r\nHost: localhost\r\nX-Id: 7\r\n\r\nhello").unwrap();
    assert_eq!(request.method, "POST");
    assert_eq!(request.path, "/items");
    assert_eq!(request.headers.len(), 2);
    assert_eq!(request.headers.get("Host").unwrap(), "localhost");
    assert_eq!(request.headers.get("X-Id").unwrap(), "7");
    assert_eq!(request.body, "hello");
}

#[test]
fn text_and_bytes_parse_alike() {
    let text = "GET /a HTTP/1.1\nK: v\n\nb1\nb2";
    let from_text = parse_request_text(text).unwrap();
    let from_bytes = parse_request(text.as_bytes()).unwrap();
    assert_eq!(from_text.method, from_bytes.method);
    assert_eq!(from_text.path, from_bytes.path);
    assert_eq!(from_text.body, from_bytes.body);
    assert_eq!(from_text.headers.get("K"), from_bytes.headers.get("K"));
}

#[test]
fn fewer_than_three_tokens_is_invalid_request_line() {
    assert_eq!(parse_request(b"BADLINE\r\n\r\n").err(), Some(ParseError::InvalidRequestLine));
    assert_eq!(parse_request(b"GET /\r\n\r\n").err(), Some(ParseError::InvalidRequestLine));
    assert_eq!(parse_request(b"").err(), Some(ParseError::InvalidRequestLine));
    assert_eq!(parse_request(b"\r\nGET / HTTP/1.1\r\n").err(), Some(ParseError::InvalidRequestLine));
    assert_eq!(parse_request(b"   \t \r\n").err(), Some(ParseError::InvalidRequestLine));
}

#[test]
fn more_than_three_tokens_is_accepted() {
    let request = parse_request(b"GET / HTTP/1.1 extra stuff\r\n\r\n").unwrap();
    assert_eq!(request.method, "GET");
    assert_eq!(request.path, "/");
}

#[test]
fn method_and_path_are_not_validated() {
    let request = parse_request(b"frob no-slash whatever\n").unwrap();
    assert_eq!(request.method, "frob");
    assert_eq!(request.path, "no-slash");
    assert_eq!(request.headers.len(), 0);
    assert_eq!(request.body, "");
}

#[test]
fn header_lines_without_separator_are_dropped() {
    let with = parse_request(b"GET / HTTP/1.1\r\nA: 1\r\nnonsense\r\nB: 2\r\n\r\nbody\r\nmore").unwrap();
    let without = parse_request(b"GET / HTTP/1.1\r\nA: 1\r\nB: 2\r\n\r\nbody\r\nmore").unwrap();
    assert_eq!(with.headers.len(), 2);
    assert_eq!(with.headers.len(), without.headers.len());
    assert_eq!(with.headers.get("A").unwrap(), "1");
    assert_eq!(with.headers.get("B").unwrap(), "2");
    assert_eq!(with.body, "bodymore");
    assert_eq!(with.body, without.body);
}

#[test]
fn later_header_overrides_earlier_one() {
    let request = parse_request(b"GET / HTTP/1.1\r\nA: 1\r\nA: 2\r\n\r\n").unwrap();
    assert_eq!(request.headers.len(), 1);
    assert_eq!(request.headers.get("A").unwrap(), "2");
}

#[test]
fn header_names_are_case_sensitive() {
    let request = parse_request(b"GET / HTTP/1.1\r\nhost: a\r\nHost: b\r\n\r\n").unwrap();
    assert_eq!(request.headers.len(), 2);
    assert_eq!(request.headers.get("host").unwrap(), "a");
    assert_eq!(request.headers.get("Host").unwrap(), "b");
}

#[test]
fn body_lines_are_joined_without_separators() {
    let request = parse_request(b"GET / HTTP/1.1\r\n\r\none\r\ntwo\n\nthree").unwrap();
    assert_eq!(request.body, "onetwothree");
}

#[test]
fn header_like_lines_after_blank_line_are_body() {
    let request = parse_request(b"GET / HTTP/1.1\r\n\r\nA: 1\r\n").unwrap();
    assert_eq!(request.headers.len(), 0);
    assert_eq!(request.body, "A: 1");
}

#[test]
fn no_blank_line_means_empty_body() {
    let request = parse_request(b"GET / HTTP/1.1\r\nA: 1\r\nB: 2").unwrap();
    assert_eq!(request.headers.len(), 2);
    assert_eq!(request.body, "");
}

#[test]
fn invalid_bytes_are_replaced_not_rejected() {
    let request = parse_request(b"GET / HTTP/1.1\r\nK: \xff\r\n\r\n\xc3(").unwrap();
    assert_eq!(request.headers.get("K").unwrap(), "\u{FFFD}");
    assert_eq!(request.body, "\u{FFFD}(");
}

#[test]
fn multibyte_text_is_decoded() {
    let request = parse_request("GET /caf\u{e9} HTTP/1.1\r\n\r\n".as_bytes()).unwrap();
    assert_eq!(request.path, "/caf\u{e9}");
}

#[test]
fn zero_padding_after_request_lands_in_body() {
    let mut buffer = vec![0u8; 32];
    let text = b"GET / HTTP/1.1\r\n\r\n";
    buffer[..text.len()].copy_from_slice(text);
    let request = parse_request(&buffer).unwrap();
    assert_eq!(request.method, "GET");
    assert_eq!(request.body.len(), 32 - text.len());
    assert!(request.body.chars().all(|c| c == '\0'));
}
