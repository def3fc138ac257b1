use http_server::http::{Headers, HttpResponse};
use http_server::parser::parse_request;
use http_server::wire::{response_head, write_response};

fn wire(response: &HttpResponse) -> Vec<u8> {
    let mut out = Vec::new();
    write_response(&mut out, response);
    out
}

#[test]
fn not_found_wire_bytes() {
    assert_eq!(
        wire(&HttpResponse::not_found()),
        b"HTTP/1.1 404 Not Found\r\n\r\n404 - Route Not Found".to_vec()
    );
}

#[test]
fn bad_request_wire_bytes() {
    assert_eq!(
        wire(&HttpResponse::bad_request()),
        b"HTTP/1.1 400 Bad Request\r\n\r\n400 - Bad Request".to_vec()
    );
}

#[test]
fn ok_html_wire_bytes() {
    assert_eq!(
        wire(&HttpResponse::ok_html("<b>x</b>")),
        b"HTTP/1.1 200 OK\r\nContent-Type: text/html\r\n\r\n<b>x</b>".to_vec()
    );
}

#[test]
fn headers_are_written_in_table_order() {
    let mut headers = Headers::new();
    headers.insert("B".to_string(), "2".to_string());
    headers.insert("A".to_string(), "1".to_string());
    headers.insert("B".to_string(), "3".to_string());
    let response = HttpResponse::new(200, "OK".to_string(), Some(headers), b"z".to_vec());
    assert_eq!(wire(&response), b"HTTP/1.1 200 OK\r\nB: 3\r\nA: 1\r\n\r\nz".to_vec());
}

#[test]
fn status_code_is_written_in_decimal() {
    for (code, text) in [(0u16, "0"), (7, "7"), (10, "10"), (99, "99"), (100, "100"), (505, "505"), (65535, "65535")] {
        let response = HttpResponse::new(code, "M".to_string(), None, Vec::new());
        assert_eq!(response_head(&response), format!("HTTP/1.1 {} M\r\n\r\n", text));
    }
}

#[test]
fn body_bytes_are_written_raw() {
    let response = HttpResponse::new(200, "OK".to_string(), None, vec![0, 255, 13, 10, 128]);
    let mut expected = b"HTTP/1.1 200 OK\r\n\r\n".to_vec();
    expected.extend_from_slice(&[0, 255, 13, 10, 128]);
    assert_eq!(wire(&response), expected);
}

#[test]
fn write_response_appends_to_what_is_there() {
    let mut out = b"xx".to_vec();
    write_response(&mut out, &HttpResponse::not_found());
    assert_eq!(out, b"xxHTTP/1.1 404 Not Found\r\n\r\n404 - Route Not Found".to_vec());
}

#[test]
fn non_ascii_head_is_utf8() {
    let response = HttpResponse::new(200, "d\u{e9}j\u{e0}".to_string(), None, Vec::new());
    assert_eq!(wire(&response), "HTTP/1.1 200 d\u{e9}j\u{e0}\r\n\r\n".as_bytes().to_vec());
}

#[test]
fn serialized_headers_parse_back() {
    let mut headers = Headers::new();
    headers.insert("Content-Type".to_string(), "text/plain".to_string());
    headers.insert("X-Odd:".to_string(), "a: b\r".to_string());
    headers.insert("Empty".to_string(), "".to_string());
    let response = HttpResponse::new(200, "OK".to_string(), Some(headers), Vec::new());
    let reparsed = parse_request(&wire(&response)).unwrap();
    assert_eq!(reparsed.headers.len(), 3);
    assert_eq!(reparsed.headers.get("Content-Type").unwrap(), "text/plain");
    assert_eq!(reparsed.headers.get("X-Odd:").unwrap(), "a: b\r");
    assert_eq!(reparsed.headers.get("Empty").unwrap(), "");
    assert_eq!(reparsed.body, "");
}
