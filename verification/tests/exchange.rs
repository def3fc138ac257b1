use http_server::connection::{handle_connection, respond, READ_CAPACITY};
use http_server::http::{HttpRequest, HttpResponse};
use http_server::parser::{parse_request, ParseError};
use http_server::router::Router;

type Handler = fn(&HttpRequest) -> HttpResponse;

const HOME: &str = "<html><body><h1>Welcome to Rust HTTP Server!</h1></body></html>";

fn home(_request: &HttpRequest) -> HttpResponse {
    HttpResponse::ok_html(HOME)
}

fn users(_request: &HttpRequest) -> HttpResponse {
    HttpResponse::ok_json("[{\"id\":1,\"name\":\"Alice\"},{\"id\":2,\"name\":\"Bob\"}]")
}

fn echo(request: &HttpRequest) -> HttpResponse {
    HttpResponse::new(200, "OK".to_string(), None, request.body.as_bytes().to_vec())
}

fn first(_request: &HttpRequest) -> HttpResponse {
    HttpResponse::ok_html("first")
}

fn second(_request: &HttpRequest) -> HttpResponse {
    HttpResponse::ok_html("second")
}

fn site() -> Router<Handler> {
    let mut router: Router<Handler> = Router::new();
    router.add_route("GET".to_string(), "/".to_string(), home);
    router.add_route("GET".to_string(), "/users".to_string(), users);
    router.add_route("POST".to_string(), "/echo".to_string(), echo);
    router
}

fn request(method: &str, path: &str) -> HttpRequest {
    parse_request(format!("{} {} HTTP/1.1\r\n\r\n", method, path).as_bytes()).unwrap()
}

#[test]
fn read_capacity_is_1024() {
    assert_eq!(READ_CAPACITY, 1024);
}

#[test]
fn registered_route_gets_html() {
    let router = site();
    let response = router.handle_request(&parse_request(b"GET / HTTP/1.1\r\n\r\n").unwrap());
    assert_eq!(response.status_code, 200);
    assert_eq!(response.headers.get("Content-Type").unwrap(), "text/html");
    assert_eq!(response.body, HOME.as_bytes().to_vec());
}

#[test]
fn unregistered_route_gets_404() {
    let router = site();
    let response = router.handle_request(&request("DELETE", "/users"));
    assert_eq!(response.status_code, 404);
    assert_eq!(response.status_message, "Not Found");
    assert_eq!(response.headers.len(), 0);
    assert_eq!(response.body, b"404 - Route Not Found".to_vec());
}

#[test]
fn bad_request_line_gets_400() {
    let router = site();
    assert_eq!(
        handle_connection(b"BADLINE\r\n\r\n", &router),
        b"HTTP/1.1 400 Bad Request\r\n\r\n400 - Bad Request".to_vec()
    );
}

#[test]
fn empty_router_answers_404() {
    let router: Router<Handler> = Router::new();
    let response = router.handle_request(&request("GET", "/"));
    assert_eq!(response.status_code, 404);
}

#[test]
fn matching_is_exact() {
    let mut router = site();
    router.add_route("GET".to_string(), "/static/".to_string(), first);
    assert_eq!(router.handle_request(&request("GET", "/static/")).body, b"first".to_vec());
    assert_eq!(router.handle_request(&request("GET", "/static/foo.txt")).status_code, 404);
    assert_eq!(router.handle_request(&request("GET", "/static")).status_code, 404);
    assert_eq!(router.handle_request(&request("get", "/")).status_code, 404);
    assert_eq!(router.handle_request(&request("POST", "/")).status_code, 404);
    assert_eq!(router.handle_request(&request("GET", "/users/")).status_code, 404);
}

#[test]
fn last_registration_wins() {
    let mut router: Router<Handler> = Router::new();
    router.add_route("GET".to_string(), "/x".to_string(), first);
    router.add_route("GET".to_string(), "/y".to_string(), first);
    router.add_route("GET".to_string(), "/x".to_string(), second);
    assert_eq!(router.handle_request(&request("GET", "/x")).body, b"second".to_vec());
    assert_eq!(router.handle_request(&request("GET", "/y")).body, b"first".to_vec());
}

#[test]
fn handler_output_is_returned_byte_for_byte() {
    let router = site();
    assert_eq!(
        handle_connection(b"GET /users HTTP/1.1\r\nHost: x\r\n\r\n", &router),
        b"HTTP/1.1 200 OK\r\nContent-Type: application/json\r\n\r\n[{\"id\":1,\"name\":\"Alice\"},{\"id\":2,\"name\":\"Bob\"}]".to_vec()
    );
}

#[test]
fn handler_sees_the_parsed_request() {
    let router = site();
    assert_eq!(
        handle_connection(b"POST /echo HTTP/1.1\r\n\r\nping", &router),
        b"HTTP/1.1 200 OK\r\n\r\nping".to_vec()
    );
}

#[test]
fn unregistered_exchange_gets_404_bytes() {
    let router = site();
    assert_eq!(
        handle_connection(b"DELETE /users HTTP/1.1\r\n\r\n", &router),
        b"HTTP/1.1 404 Not Found\r\n\r\n404 - Route Not Found".to_vec()
    );
}

#[test]
fn respond_to_parse_failure_is_400() {
    let router = site();
    let response = respond(&router, &Err(ParseError::InvalidRequestLine));
    assert_eq!(response.status_code, 400);
    assert_eq!(response.status_message, "Bad Request");
    assert_eq!(response.body, b"400 - Bad Request".to_vec());
}

#[test]
fn respond_to_request_dispatches() {
    let router = site();
    let response = respond(&router, &Ok(request("GET", "/")));
    assert_eq!(response.status_code, 200);
    assert_eq!(response.body, HOME.as_bytes().to_vec());
}

#[test]
fn sequential_exchanges_are_independent() {
    let router = site();
    let one = handle_connection(b"GET / HTTP/1.1\r\n\r\n", &router);
    let two = handle_connection(b"GET /users HTTP/1.1\r\n\r\n", &router);
    let again = handle_connection(b"GET / HTTP/1.1\r\n\r\n", &router);
    let expected_one = format!("HTTP/1.1 200 OK\r\nContent-Type: text/html\r\n\r\n{}", HOME);
    assert_eq!(one, expected_one.as_bytes().to_vec());
    assert_eq!(one, again);
    assert_ne!(one, two);
    assert!(two.starts_with(b"HTTP/1.1 200 OK\r\nContent-Type: application/json\r\n\r\n"));
}
