//! The message model: header tables, parsed requests and outgoing responses.

use crate::assoc::{lemma_domain, lemma_lookup_at, lemma_push_inserts, lemma_replace_inserts, pairs_to_map, unique_keys};
use vstd::prelude::*;
use vstd::slice::slice_to_vec;
use vstd::string::StringExecFns;

verus! {

/// One header line: a name and its value.
#[derive(Debug)]
pub struct Header {
    pub name: String,
    pub value: String,
}

/// A table from header name to value. Names are case-sensitive and each name
/// occurs once; entries keep the order in which their names first arrived.
#[derive(Debug)]
pub struct Headers {
    entries: Vec<Header>,
}

/// The name/value pairs of a sequence of header entries.
pub open spec fn header_pairs(entries: Seq<Header>) -> Seq<(Seq<char>, Seq<char>)> {
    Seq::new(entries.len(), |i: int| (entries[i].name@, entries[i].value@))
}

impl View for Headers {
    type V = Map<Seq<char>, Seq<char>>;

    open spec fn view(&self) -> Map<Seq<char>, Seq<char>> {
        pairs_to_map(self.pairs())
    }
}

impl Headers {
    /// The entries as name/value pairs, in the order they are written out.
    pub closed spec fn pairs(&self) -> Seq<(Seq<char>, Seq<char>)> {
        header_pairs(self.entries@)
    }

    /// Every name occurs once.
    pub open spec fn wf(&self) -> bool {
        unique_keys(self.pairs())
    }

    /// An empty table.
    pub fn new() -> (headers: Headers)
        ensures
            headers.wf(),
            headers.pairs() == Seq::<(Seq<char>, Seq<char>)>::empty(),
            headers@ == Map::<Seq<char>, Seq<char>>::empty(),
    {
        let headers = Headers { entries: Vec::new() };
        assert(headers.pairs() =~= Seq::empty());
        headers
    }

    /// Number of entries.
    pub fn len(&self) -> (n: usize)
        ensures
            n == self.pairs().len(),
    {
        self.entries.len()
    }

    /// The entry at `index`, in write-out order.
    pub fn entry(&self, index: usize) -> (header: &Header)
        requires
            index < self.pairs().len(),
        ensures
            (header.name@, header.value@) == self.pairs()[index as int],
    {
        &self.entries[index]
    }

    /// Position of the entry named `name`, if there is one.
    fn position(&self, name: &String) -> (found: Option<usize>)
        ensures
            match found {
                Some(i) => i < self.pairs().len() && self.pairs()[i as int].0 == name@,
                None => forall|i: int| 0 <= i < self.pairs().len() ==> self.pairs()[i].0 != name@,
            },
    {
        let mut i: usize = 0;
        while i < self.entries.len()
            invariant
                i <= self.entries.len(),
                forall|j: int| 0 <= j < i ==> self.pairs()[j].0 != name@,
            decreases self.entries.len() - i,
        {
            if self.entries[i].name == *name {
                return Some(i);
            }
            i += 1;
        }
        None
    }

    /// The value stored under `name`.
    pub fn get(&self, name: &str) -> (value: Option<&String>)
        requires
            self.wf(),
        ensures
            match value {
                Some(v) => self@.contains_key(name@) && self@[name@] == v@,
                None => !self@.contains_key(name@),
            },
    {
        let key = String::from_str(name);
        proof {
            lemma_domain(self.pairs(), name@);
        }
        match self.position(&key) {
            Some(i) => {
                proof {
                    lemma_lookup_at(self.pairs(), i as int);
                }
                Some(&self.entries[i].value)
            },
            None => None,
        }
    }

    /// Stores `value` under `name`. A name already present keeps its place
    /// and takes the new value; a new name goes to the end.
    pub fn insert(&mut self, name: String, value: String)
        requires
            old(self).wf(),
        ensures
            final(self).wf(),
            final(self)@ == old(self)@.insert(name@, value@),
            match old(self).index_of(name@) {
                Some(i) => final(self).pairs() == old(self).pairs().update(i, (name@, value@)),
                None => final(self).pairs() == old(self).pairs().push((name@, value@)),
            },
    {
        let ghost before = self.pairs();
        match self.position(&name) {
            Some(i) => {
                proof {
                    lemma_replace_inserts(before, i as int, value@);
                    assert(old(self).index_of(name@) == Some(i as int));
                }
                self.entries.set(i, Header { name, value });
                assert(self.pairs() =~= before.update(i as int, (name@, value@)));
            },
            None => {
                proof {
                    lemma_push_inserts(before, name@, value@);
                }
                self.entries.push(Header { name, value });
                assert(self.pairs() =~= before.push((name@, value@)));
            },
        }
    }

    /// Where `name` stands among the pairs.
    pub open spec fn index_of(&self, name: Seq<char>) -> Option<int> {
        if exists|i: int| 0 <= i < self.pairs().len() && self.pairs()[i].0 == name {
            Some(choose|i: int| 0 <= i < self.pairs().len() && self.pairs()[i].0 == name)
        } else {
            None
        }
    }
}

/// What a parsed request says, as plain mathematics.
pub struct RequestModel {
    pub method: Seq<char>,
    pub path: Seq<char>,
    pub headers: Map<Seq<char>, Seq<char>>,
    pub body: Seq<char>,
}

/// What a response says, as plain mathematics. Headers are kept as the
/// ordered pairs that go onto the wire.
pub struct ResponseModel {
    pub status_code: nat,
    pub status_message: Seq<char>,
    pub headers: Seq<(Seq<char>, Seq<char>)>,
    pub body: Seq<u8>,
}

/// A parsed request.
#[derive(Debug)]
pub struct HttpRequest {
    pub method: String,
    pub path: String,
    pub headers: Headers,
    pub body: String,
}

/// An outgoing response. The body is raw bytes.
#[derive(Debug)]
pub struct HttpResponse {
    pub status_code: u16,
    pub status_message: String,
    pub headers: Headers,
    pub body: Vec<u8>,
}

impl View for HttpRequest {
    type V = RequestModel;

    open spec fn view(&self) -> RequestModel {
        RequestModel {
            method: self.method@,
            path: self.path@,
            headers: self.headers@,
            body: self.body@,
        }
    }
}

impl View for HttpResponse {
    type V = ResponseModel;

    open spec fn view(&self) -> ResponseModel {
        ResponseModel {
            status_code: self.status_code as nat,
            status_message: self.status_message@,
            headers: self.headers.pairs(),
            body: self.body@,
        }
    }
}

/// The bytes of a text in UTF-8.
pub open spec fn utf8(text: Seq<char>) -> Seq<u8> {
    vstd::utf8::encode_utf8(text)
}

/// A 200 response carrying `body` under the given content type.
pub open spec fn ok_with(content_type: Seq<char>, body: Seq<char>) -> ResponseModel {
    ResponseModel {
        status_code: 200,
        status_message: "OK"@,
        headers: seq![("Content-Type"@, content_type)],
        body: utf8(body),
    }
}

/// The fixed answer for a request no route matches.
pub open spec fn not_found_model() -> ResponseModel {
    ResponseModel {
        status_code: 404,
        status_message: "Not Found"@,
        headers: Seq::empty(),
        body: utf8("404 - Route Not Found"@),
    }
}

/// The fixed answer for a request that cannot be parsed.
pub open spec fn bad_request_model() -> ResponseModel {
    ResponseModel {
        status_code: 400,
        status_message: "Bad Request"@,
        headers: Seq::empty(),
        body: utf8("400 - Bad Request"@),
    }
}

impl HttpResponse {
    /// A response from its parts; absent headers mean an empty table.
    pub fn new(
        status_code: u16,
        status_message: String,
        headers: Option<Headers>,
        body: Vec<u8>,
    ) -> (response: HttpResponse)
        ensures
            response.status_code == status_code,
            response.status_message == status_message,
            response.body == body,
            match headers {
                Some(h) => response.headers == h,
                None => response.headers.wf() && response.headers.pairs() == Seq::<
                    (Seq<char>, Seq<char>),
                >::empty(),
            },
    {
        let headers = match headers {
            Some(h) => h,
            None => Headers::new(),
        };
        HttpResponse { status_code, status_message, headers, body }
    }

    /// A 200 response with one header, `Content-Type`.
    fn ok_typed(content_type: &str, body: &str) -> (response: HttpResponse)
        ensures
            response@ == ok_with(content_type@, body@),
            response.headers.wf(),
    {
        let mut headers = Headers::new();
        headers.insert(String::from_str("Content-Type"), String::from_str(content_type));
        let response = HttpResponse::new(
            200,
            String::from_str("OK"),
            Some(headers),
            slice_to_vec(body.as_bytes()),
        );
        assert(response.headers.pairs() =~= seq![("Content-Type"@, content_type@)]);
        response
    }

    /// 200 "OK" with `Content-Type: text/html` and `body` as UTF-8.
    pub fn ok_html(body: &str) -> (response: HttpResponse)
        ensures
            response@ == ok_with("text/html"@, body@),
            response.headers.wf(),
    {
        Self::ok_typed("text/html", body)
    }

    /// 200 "OK" with `Content-Type: application/json` and `body` as UTF-8.
    pub fn ok_json(body: &str) -> (response: HttpResponse)
        ensures
            response@ == ok_with("application/json"@, body@),
            response.headers.wf(),
    {
        Self::ok_typed("application/json", body)
    }

    /// 404 "Not Found" with no headers and the fixed text body.
    pub fn not_found() -> (response: HttpResponse)
        ensures
            response@ == not_found_model(),
            response.headers.wf(),
    {
        HttpResponse::new(
            404,
            String::from_str("Not Found"),
            None,
            slice_to_vec("404 - Route Not Found".as_bytes()),
        )
    }

    /// 400 "Bad Request" with no headers and the fixed text body.
    pub fn bad_request() -> (response: HttpResponse)
        ensures
            response@ == bad_request_model(),
            response.headers.wf(),
    {
        HttpResponse::new(
            400,
            String::from_str("Bad Request"),
            None,
            slice_to_vec("400 - Bad Request".as_bytes()),
        )
    }
}

} // verus!
