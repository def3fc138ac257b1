use http_server::http::{HttpRequest, HttpResponse};
use http_server::parser::{parse_request, ParseError};
use http_server::router::Router;
use http_server::routes::{
    home_page, register_routes, remove_all, static_file_path, static_file_response, user_list,
};

type Route = fn(&HttpRequest) -> HttpResponse;

fn files(_request: &HttpRequest) -> HttpResponse {
    static_file_response(Some(b"file".to_vec()))
}

fn ask(router: &Router<Route>, line: &str) -> HttpResponse {
    router.handle_request(&parse_request(format!("{}\r\n\r\n", line).as_bytes()).unwrap())
}

#[test]
fn parse_error_message() {
    assert_eq!(ParseError::InvalidRequestLine.message(), "Invalid request line");
}

#[test]
fn remove_all_agrees_with_std_replace() {
    let cases = [
        ("/static/a.txt", "/static"),
        ("/static/static/x", "/static"),
        ("/static/static", "/static"),
        ("/stat/static", "/static"),
        ("aaaa", "aa"),
        ("aaa", "aa"),
        ("abcabc", "bc"),
        ("", "x"),
        ("x", "xyz"),
        ("héllo", "l"),
        ("same", ""),
        ("/sta/static/tic", "/static"),
    ];
    for (text, pattern) in cases {
        assert_eq!(remove_all(text, pattern), text.replace(pattern, ""), "{:?} {:?}", text, pattern);
    }
}

#[test]
fn static_path_examples() {
    assert_eq!(static_file_path("/static/"), "./static/");
    assert_eq!(static_file_path("/static/a.txt"), "./static/a.txt");
    assert_eq!(static_file_path("/other"), "./static/other");
    assert_eq!(static_file_path(""), "./static");
}

#[test]
fn file_contents_are_served_as_plain_text() {
    let response = static_file_response(Some(vec![1, 2, 255]));
    assert_eq!(response.status_code, 200);
    assert_eq!(response.status_message, "OK");
    assert_eq!(response.headers.len(), 1);
    assert_eq!(response.headers.get("Content-Type").unwrap(), "text/plain");
    assert_eq!(response.body, vec![1, 2, 255]);
}

#[test]
fn missing_file_is_not_found() {
    let response = static_file_response(None);
    assert_eq!(response.status_code, 404);
    assert_eq!(response.status_message, "Not Found");
    assert_eq!(response.body, b"404 - Route Not Found".to_vec());
}

#[test]
fn home_page_is_html() {
    let request = parse_request(b"GET / HTTP/1.1\r\n\r\n").unwrap();
    let response = home_page(&request);
    assert_eq!(response.status_code, 200);
    assert_eq!(response.headers.get("Content-Type").unwrap(), "text/html");
    assert_eq!(
        response.body,
        b"<html><body><h1>Welcome to Rust HTTP Server!</h1></body></html>".to_vec()
    );
}

#[test]
fn user_list_is_json() {
    let request = parse_request(b"GET /users HTTP/1.1\r\n\r\n").unwrap();
    let response = user_list(&request);
    assert_eq!(response.status_code, 200);
    assert_eq!(response.headers.get("Content-Type").unwrap(), "application/json");
    assert_eq!(
        response.body,
        b"[{\"id\":1,\"name\":\"Alice\"},{\"id\":2,\"name\":\"Bob\"}]".to_vec()
    );
}

#[test]
fn registered_site_serves_its_three_routes_exactly() {
    let mut router: Router<Route> = Router::new();
    register_routes(&mut router, home_page, user_list, files);
    assert_eq!(ask(&router, "GET / HTTP/1.1").headers.get("Content-Type").unwrap(), "text/html");
    assert_eq!(
        ask(&router, "GET /users HTTP/1.1").headers.get("Content-Type").unwrap(),
        "application/json"
    );
    assert_eq!(ask(&router, "GET /static/ HTTP/1.1").body, b"file".to_vec());
    assert_eq!(ask(&router, "GET /static/a.txt HTTP/1.1").status_code, 404);
    assert_eq!(ask(&router, "POST / HTTP/1.1").status_code, 404);
}
