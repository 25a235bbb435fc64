//! The route table: ordered bindings of a path and a verb to a handler, first
//! match wins.
use vstd::prelude::*;
use crate::method::Method;
use crate::request::{Request, RequestView};
use crate::text::same_text;

verus! {

/// Binds an exact path and a verb to a handler.
pub struct Route<H> {
    pub path: &'static str,
    pub method: Method,
    pub func: H,
}

impl<H> Route<H> {
    /// A route for `path` and `method`, served by `func`.
    pub fn new(path: &'static str, method: Method, func: H) -> (r: Route<H>)
        ensures
            r.path == path,
            r.method == method,
            r.func == func,
    {
        Route { path, method, func }
    }
}

/// Whether `r` serves request `q`: same path, character for character, and
/// same verb.
pub open spec fn route_matches<H>(r: Route<H>, q: RequestView) -> bool {
    r.path@ == q.uri && r.method == q.method
}

/// `i` is the first route of `routes` that serves `q`.
pub open spec fn is_first_match<H>(routes: Seq<Route<H>>, q: RequestView, i: int) -> bool {
    &&& 0 <= i < routes.len()
    &&& route_matches(routes[i], q)
    &&& forall|j: int| 0 <= j < i ==> !route_matches(#[trigger] routes[j], q)
}

/// No route of `routes` serves `q`.
pub open spec fn no_match<H>(routes: Seq<Route<H>>, q: RequestView) -> bool {
    forall|j: int| 0 <= j < routes.len() ==> !route_matches(#[trigger] routes[j], q)
}

/// The index of the first route that serves `req`, if any.
pub fn find_route<H>(routes: &[Route<H>], req: &Request) -> (r: Option<usize>)
    ensures
        match r {
            Some(i) => is_first_match(routes@, req@, i as int),
            None => no_match(routes@, req@),
        },
{
    let mut i: usize = 0;
    while i < routes.len()
        invariant
            i <= routes@.len(),
            forall|j: int| 0 <= j < i ==> !route_matches(#[trigger] routes@[j], req@),
        decreases routes.len() - i,
    {
        let route = &routes[i];
        if same_text(route.path, req.uri.as_str()) && route.method == req.method {
            return Some(i);
        }
        i += 1;
    }
    None
}

} // verus!
