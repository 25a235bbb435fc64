//! The request verbs the server recognises.
use vstd::prelude::*;
use crate::text::same_text;

verus! {

/// A request verb.
#[derive(Clone, Copy, Debug, PartialEq, Eq, Structural)]
pub enum Method {
    GET,
    POST,
    PUT,
    PATCH,
    DELETE,
}

/// The wire spelling of a verb.
pub open spec fn method_text(m: Method) -> Seq<char> {
    match m {
        Method::GET => "GET"@,
        Method::POST => "POST"@,
        Method::PUT => "PUT"@,
        Method::PATCH => "PATCH"@,
        Method::DELETE => "DELETE"@,
    }
}

/// The verb spelled by `tok`, if any; the match is exact and case-sensitive.
pub open spec fn method_of(tok: Seq<char>) -> Option<Method> {
    if tok == "GET"@ {
        Some(Method::GET)
    } else if tok == "POST"@ {
        Some(Method::POST)
    } else if tok == "PUT"@ {
        Some(Method::PUT)
    } else if tok == "PATCH"@ {
        Some(Method::PATCH)
    } else if tok == "DELETE"@ {
        Some(Method::DELETE)
    } else {
        None
    }
}

impl Method {
    /// Reads a verb from an optional token; a missing or unknown token gives `None`.
    pub fn from_str(method: Option<&str>) -> (r: Option<Method>)
        ensures
            method is None ==> r is None,
            method is Some ==> r == method_of(method->0@),
    {
        match method {
            None => None,
            Some(tok) => {
                if same_text(tok, "GET") {
                    Some(Method::GET)
                } else if same_text(tok, "POST") {
                    Some(Method::POST)
                } else if same_text(tok, "PUT") {
                    Some(Method::PUT)
                } else if same_text(tok, "PATCH") {
                    Some(Method::PATCH)
                } else if same_text(tok, "DELETE") {
                    Some(Method::DELETE)
                } else {
                    None
                }
            },
        }
    }

    /// The wire spelling of this verb.
    pub fn as_str(&self) -> (r: &'static str)
        ensures
            r@ == method_text(*self),
    {
        match self {
            Method::GET => "GET",
            Method::POST => "POST",
            Method::PUT => "PUT",
            Method::PATCH => "PATCH",
            Method::DELETE => "DELETE",
        }
    }
}

proof fn lemma_texts_distinct(a: Method, b: Method)
    ensures
        method_text(a) == method_text(b) ==> a == b,
{
    reveal_strlit("GET");
    reveal_strlit("POST");
    reveal_strlit("PUT");
    reveal_strlit("PATCH");
    reveal_strlit("DELETE");
    if method_text(a) == method_text(b) {
        let (ta, tb) = (method_text(a), method_text(b));
        assert(ta.len() == tb.len());
        assert(ta[0] == tb[0]);
        assert(ta[1] == tb[1]);
    }
}

/// Spelling a verb and reading it back gives the same verb, and a token reads
/// as a verb exactly when it is that verb's spelling; every other token reads
/// as nothing.
pub proof fn lemma_method_round_trip(m: Method, tok: Seq<char>)
    ensures
        method_of(method_text(m)) == Some(m),
        method_of(tok) == Some(m) <==> tok == method_text(m),
        method_of(tok) is None <==> (forall|v: Method| tok != #[trigger] method_text(v)),
{
    reveal_strlit("GET");
    reveal_strlit("POST");
    reveal_strlit("PUT");
    reveal_strlit("PATCH");
    reveal_strlit("DELETE");
    lemma_texts_distinct(m, Method::GET);
    lemma_texts_distinct(m, Method::POST);
    lemma_texts_distinct(m, Method::PUT);
    lemma_texts_distinct(m, Method::PATCH);
    lemma_texts_distinct(m, Method::DELETE);
    if method_of(tok) is None {
        assert forall|v: Method| tok != #[trigger] method_text(v) by {
            match v {
                Method::GET => {},
                Method::POST => {},
                Method::PUT => {},
                Method::PATCH => {},
                Method::DELETE => {},
            }
        }
    } else {
        assert(tok == method_text(method_of(tok)->0));
    }
}

} // verus!
