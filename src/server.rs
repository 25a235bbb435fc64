//! The server's configuration and the decisions made for one connection.
use vstd::prelude::*;
use crate::request::{Request, parse_request};
use crate::response::{byte_len, render_response, response_text};
use crate::route::{Route, find_route, is_first_match, no_match};
use crate::status::StatusCode;

verus! {

/// Where the server listens and how many workers serve it.
pub struct WebSrv {
    addr: String,
    workers: usize,
}

/// What becomes of one connection once its text has been read.
pub enum Outcome {
    /// The text frames no request: the connection is closed with nothing written.
    Close,
    /// Route `route` served `request`; `response` is to be written back.
    Served { route: usize, request: Request, status: StatusCode, response: String },
    /// No route serves `request`: the not-found content is to be sent.
    Missed { request: Request },
}

impl View for WebSrv {
    type V = (Seq<char>, usize);

    /// The address and the worker count.
    closed spec fn view(&self) -> (Seq<char>, usize) {
        (self.addr@, self.workers)
    }
}

impl WebSrv {
    /// A server for address `addr` with `workers` workers.
    pub fn new(addr: &str, workers: usize) -> (r: WebSrv)
        ensures
            r@ == (addr@, workers),
    {
        WebSrv { addr: addr.to_owned(), workers }
    }

    /// The address to listen on.
    pub fn addr(&self) -> (r: &String)
        ensures
            r@ == self@.0,
    {
        &self.addr
    }

    /// The number of workers.
    pub fn workers(&self) -> (r: usize)
        ensures
            r == self@.1,
    {
        self.workers
    }

    /// Handles the text read from one connection: parses it, finds the first
    /// route that serves it and calls that route's handler alone, and frames
    /// the handler's status and body.
    pub fn handle_connection<H: Fn(&Request) -> (StatusCode, String)>(
        text: &str,
        routes: &[Route<H>],
    ) -> (o: Outcome)
        requires
            forall|i: int, q: &Request| 0 <= i < routes@.len() ==> call_requires(routes@[i].func, (q,)),
            forall|i: int, q: &Request, out: (StatusCode, String)|
                0 <= i < routes@.len() && call_ensures(routes@[i].func, (q,), out) ==> byte_len(
                    out.1@,
                ) <= usize::MAX,
        ensures
            match o {
                Outcome::Close => parse_request(text@) is None,
                Outcome::Served { route, request, status, response } => {
                    &&& parse_request(text@) == Some(request@)
                    &&& is_first_match(routes@, request@, route as int)
                    &&& exists|body: String|
                        call_ensures(routes@[route as int].func, (&request,), (status, body))
                            && response@ == response_text(status, body@)
                },
                Outcome::Missed { request } => {
                    &&& parse_request(text@) == Some(request@)
                    &&& no_match(routes@, request@)
                },
            },
    {
        let request = match Request::from_str(text) {
            Some(q) => q,
            None => {
                return Outcome::Close;
            },
        };
        match find_route(routes, &request) {
            Some(i) => {
                let (status, body) = (routes[i].func)(&request);
                let response = render_response(status, body.as_str());
                Outcome::Served { route: i, request, status, response }
            },
            None => Outcome::Missed { request },
        }
    }

    /// The response sent when no route serves a request: status not-found and
    /// `content` as the body.
    pub fn not_found_response(content: &str) -> (r: String)
        requires
            byte_len(content@) <= usize::MAX,
        ensures
            r@ == response_text(StatusCode::NotFound, content@),
    {
        render_response(StatusCode::NotFound, content)
    }
}

} // verus!
