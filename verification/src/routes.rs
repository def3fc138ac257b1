//! The routes of the example site: which pairs are served, and the parts of
//! their handlers that compute.

use crate::http::{not_found_model, ok_with, Headers, HttpRequest, HttpResponse, ResponseModel};
use crate::router::{accepts_all, Router};
use vstd::prelude::*;
use vstd::string::{StrSliceExecFns, StringExecFns};

verus! {

/// Whether `pattern` stands in `text` at index `at`.
pub open spec fn matches_at(text: Seq<char>, pattern: Seq<char>, at: int) -> bool {
    0 <= at && at + pattern.len() <= text.len() && text.subrange(at, at + pattern.len())
        == pattern
}

/// `text` from index `from` on, with every occurrence of `pattern` taken
/// out, occurrences found left to right and not overlapping.
pub open spec fn without_from(text: Seq<char>, pattern: Seq<char>, from: int) -> Seq<char>
    decreases text.len() - from,
{
    if from < 0 || from >= text.len() {
        Seq::empty()
    } else if pattern.len() > 0 && matches_at(text, pattern, from) {
        without_from(text, pattern, from + pattern.len())
    } else {
        seq![text[from]] + without_from(text, pattern, from + 1)
    }
}

/// `text` with every occurrence of `pattern` taken out.
pub open spec fn without(text: Seq<char>, pattern: Seq<char>) -> Seq<char> {
    without_from(text, pattern, 0)
}

/// Where the file for a request path is looked up: `./static` followed by
/// the path with every `/static` taken out.
pub open spec fn static_path_of(request_path: Seq<char>) -> Seq<char> {
    "./static"@ + without(request_path, "/static"@)
}

/// The answer to a request for a file, given what reading it gave.
pub open spec fn file_answer(contents: Option<Vec<u8>>) -> ResponseModel {
    match contents {
        Some(bytes) => ResponseModel {
            status_code: 200,
            status_message: "OK"@,
            headers: seq![("Content-Type"@, "text/plain"@)],
            body: bytes@,
        },
        None => not_found_model(),
    }
}

/// The page served at `/`.
pub open spec fn home_html() -> Seq<char> {
    "<html><body><h1>Welcome to Rust HTTP Server!</h1></body></html>"@
}

/// The document served at `/users`.
pub open spec fn users_json() -> Seq<char> {
    "[{\"id\":1,\"name\":\"Alice\"},{\"id\":2,\"name\":\"Bob\"}]"@
}

fn has_at(text: &str, pattern: &str, at: usize) -> (found: bool)
    requires
        at <= text@.len(),
    ensures
        found == matches_at(text@, pattern@, at as int),
{
    let n = text.unicode_len();
    let m = pattern.unicode_len();
    if m > n - at {
        return false;
    }
    let mut k: usize = 0;
    while k < m
        invariant
            k <= m,
            m == pattern@.len(),
            n == text@.len(),
            at + m <= n,
            forall|j: int| 0 <= j < k ==> text@[at + j] == pattern@[j],
        decreases m - k,
    {
        if text.get_char(at + k) != pattern.get_char(k) {
            assert(text@.subrange(at as int, at + m)[k as int] != pattern@[k as int]);
            return false;
        }
        k += 1;
    }
    assert(text@.subrange(at as int, at + m) =~= pattern@);
    true
}

/// `text` with every occurrence of `pattern` taken out.
pub fn remove_all(text: &str, pattern: &str) -> (result: String)
    ensures
        result@ == without(text@, pattern@),
{
    let n = text.unicode_len();
    let m = pattern.unicode_len();
    let mut result = String::new();
    let mut at: usize = 0;
    assert(result@ + without_from(text@, pattern@, 0) =~= without(text@, pattern@));
    while at < n
        invariant
            at <= n,
            n == text@.len(),
            m == pattern@.len(),
            result@ + without_from(text@, pattern@, at as int) == without(text@, pattern@),
        decreases n - at,
    {
        let ghost before = result@;
        let ghost rest = without_from(text@, pattern@, at as int);
        if m > 0 && has_at(text, pattern, at) {
            at += m;
        } else {
            result.append(text.substring_char(at, at + 1));
            at += 1;
            assert(result@ =~= before + seq![text@[at - 1]]);
            assert(result@ + without_from(text@, pattern@, at as int) =~= before + rest);
        }
    }
    assert(result@ + without_from(text@, pattern@, at as int) =~= result@);
    result
}

/// The handler for `GET /`: the home page as HTML.
pub fn home_page(_request: &HttpRequest) -> (response: HttpResponse)
    ensures
        response@ == ok_with("text/html"@, home_html()),
{
    HttpResponse::ok_html("<html><body><h1>Welcome to Rust HTTP Server!</h1></body></html>")
}

/// The handler for `GET /users`: the user list as JSON.
pub fn user_list(_request: &HttpRequest) -> (response: HttpResponse)
    ensures
        response@ == ok_with("application/json"@, users_json()),
{
    HttpResponse::ok_json("[{\"id\":1,\"name\":\"Alice\"},{\"id\":2,\"name\":\"Bob\"}]")
}

/// Where the file for `request_path` is looked up.
pub fn static_file_path(request_path: &str) -> (path: String)
    ensures
        path@ == static_path_of(request_path@),
{
    let rest = remove_all(request_path, "/static");
    String::from_str("./static").concat(rest.as_str())
}

/// The answer to a request for a file: its contents as `text/plain` where
/// it could be read, the fixed 404 where it could not.
pub fn static_file_response(contents: Option<Vec<u8>>) -> (response: HttpResponse)
    ensures
        response@ == file_answer(contents),
{
    match contents {
        Some(bytes) => {
            let mut headers = Headers::new();
            headers.insert(String::from_str("Content-Type"), String::from_str("text/plain"));
            let response = HttpResponse::new(200, String::from_str("OK"), Some(headers), bytes);
            assert(response.headers.pairs() =~= seq![("Content-Type"@, "text/plain"@)]);
            response
        },
        None => HttpResponse::not_found(),
    }
}

/// Registers the three routes of the site: `GET /`, `GET /users` and
/// `GET /static/`, each matched exactly.
pub fn register_routes<H: Fn(&HttpRequest) -> HttpResponse>(
    router: &mut Router<H>,
    home: H,
    users: H,
    files: H,
)
    requires
        old(router).wf(),
        accepts_all(home),
        accepts_all(users),
        accepts_all(files),
    ensures
        final(router).wf(),
        final(router)@ == old(router)@.insert(("GET"@, "/"@), home).insert(
            ("GET"@, "/users"@),
            users,
        ).insert(("GET"@, "/static/"@), files),
{
    router.add_route(String::from_str("GET"), String::from_str("/"), home);
    router.add_route(String::from_str("GET"), String::from_str("/users"), users);
    router.add_route(String::from_str("GET"), String::from_str("/static/"), files);
}

} // verus!
