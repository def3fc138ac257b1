//! The router: an exact-match table from (method, path) to handler.

use crate::assoc::{lemma_domain, lemma_lookup_at, lemma_push_inserts, lemma_replace_inserts, pairs_to_map, unique_keys};
use crate::http::{not_found_model, HttpRequest, HttpResponse};
use vstd::prelude::*;

verus! {

/// One registration.
pub struct Route<H> {
    method: String,
    path: String,
    handler: H,
}

/// A table of handlers keyed by the exact pair (method, path). A handler is
/// any function from a request to a response that accepts every request.
pub struct Router<H> {
    routes: Vec<Route<H>>,
}

/// A route key: method and path.
pub type RouteKey = (Seq<char>, Seq<char>);

impl<H> Router<H> {
    closed spec fn pairs(&self) -> Seq<(RouteKey, H)> {
        Seq::new(
            self.routes@.len(),
            |i: int| ((self.routes@[i].method@, self.routes@[i].path@), self.routes@[i].handler),
        )
    }
}

impl<H> View for Router<H> {
    type V = Map<RouteKey, H>;

    closed spec fn view(&self) -> Map<RouteKey, H> {
        pairs_to_map(self.pairs())
    }
}

/// A handler that may be called on any request.
pub open spec fn accepts_all<H: Fn(&HttpRequest) -> HttpResponse>(handler: H) -> bool {
    forall|request: &HttpRequest| call_requires(handler, (request,))
}

impl<H: Fn(&HttpRequest) -> HttpResponse> Router<H> {
    /// Each key is registered once, and every handler accepts all requests.
    pub closed spec fn wf(&self) -> bool {
        &&& unique_keys(self.pairs())
        &&& forall|i: int| 0 <= i < self.routes@.len() ==> accepts_all(self.routes@[i].handler)
    }

    /// What dispatching `request` may answer: the registered handler's
    /// output, or the fixed 404 where nothing is registered for its key.
    pub open spec fn dispatches(&self, request: &HttpRequest, response: HttpResponse) -> bool {
        let key = (request.method@, request.path@);
        if self@.contains_key(key) {
            call_ensures(self@[key], (request,), response)
        } else {
            response@ == not_found_model()
        }
    }

    /// A router with no routes.
    pub fn new() -> (router: Router<H>)
        ensures
            router.wf(),
            router@ == Map::<RouteKey, H>::empty(),
    {
        let router = Router { routes: Vec::new() };
        assert(router.pairs() =~= Seq::empty());
        router
    }

    fn position(&self, method: &String, path: &String) -> (found: Option<usize>)
        ensures
            match found {
                Some(i) => i < self.routes@.len() && self.pairs()[i as int].0 == (method@, path@),
                None => forall|i: int|
                    0 <= i < self.pairs().len() ==> self.pairs()[i].0 != (method@, path@),
            },
    {
        let mut i: usize = 0;
        while i < self.routes.len()
            invariant
                i <= self.routes.len(),
                forall|j: int| 0 <= j < i ==> self.pairs()[j].0 != (method@, path@),
            decreases self.routes.len() - i,
        {
            if self.routes[i].method == *method && self.routes[i].path == *path {
                return Some(i);
            }
            i += 1;
        }
        None
    }

    /// Registers `handler` for exactly (`method`, `path`), replacing any
    /// handler registered for that pair before.
    pub fn add_route(&mut self, method: String, path: String, handler: H)
        requires
            old(self).wf(),
            accepts_all(handler),
        ensures
            final(self).wf(),
            final(self)@ == old(self)@.insert((method@, path@), handler),
    {
        let ghost before = self.pairs();
        match self.position(&method, &path) {
            Some(i) => {
                proof {
                    lemma_replace_inserts(before, i as int, handler);
                }
                self.routes.set(i, Route { method, path, handler });
                assert(self.pairs() =~= before.update(i as int, ((method@, path@), handler)));
            },
            None => {
                proof {
                    lemma_push_inserts(before, (method@, path@), handler);
                }
                self.routes.push(Route { method, path, handler });
                assert(self.pairs() =~= before.push(((method@, path@), handler)));
            },
        }
    }

    /// Answers `request` with the handler registered for its exact
    /// (method, path), or with the fixed 404 where there is none.
    pub fn handle_request(&self, request: &HttpRequest) -> (response: HttpResponse)
        requires
            self.wf(),
        ensures
            self.dispatches(request, response),
    {
        proof {
            lemma_domain(self.pairs(), (request.method@, request.path@));
        }
        match self.position(&request.method, &request.path) {
            Some(i) => {
                proof {
                    lemma_lookup_at(self.pairs(), i as int);
                }
                (self.routes[i].handler)(request)
            },
            None => HttpResponse::not_found(),
        }
    }
}

} // verus!
