//! The parsed request and the parser that builds it from request text.
use vstd::prelude::*;
use crate::method::{Method, method_of};
use crate::text::{
    chars_of, extend_chars, find_sep, find_separator, lemma_find_sep_found, lines, sep_at, split_lines, split_ws, string_of,
    tokens, views,
};

verus! {

/// One header line, split at its first `": "`.
#[derive(Debug)]
pub struct Header {
    pub key: String,
    pub value: String,
}

impl View for Header {
    type V = (Seq<char>, Seq<char>);

    open spec fn view(&self) -> (Seq<char>, Seq<char>) {
        (self.key@, self.value@)
    }
}

impl Header {
    /// A header with the given key and value.
    pub fn new(key: &str, val: &str) -> (r: Header)
        ensures
            r@ == (key@, val@),
    {
        Header { key: key.to_owned(), value: val.to_owned() }
    }
}

/// A parsed request.
pub struct Request {
    pub http_ver: String,
    pub method: Method,
    pub uri: String,
    pub headers: Vec<Header>,
    pub body: String,
}

/// What a request holds, as plain values.
pub struct RequestView {
    pub method: Method,
    pub uri: Seq<char>,
    pub http_ver: Seq<char>,
    pub headers: Seq<(Seq<char>, Seq<char>)>,
    pub body: Seq<char>,
}

/// The views of a sequence of headers.
pub open spec fn header_views(hs: Seq<Header>) -> Seq<(Seq<char>, Seq<char>)> {
    hs.map_values(|h: Header| h@)
}

impl View for Request {
    type V = RequestView;

    open spec fn view(&self) -> RequestView {
        RequestView {
            method: self.method,
            uri: self.uri@,
            http_ver: self.http_ver@,
            headers: header_views(self.headers@),
            body: self.body@,
        }
    }
}

/// Whether a header line holds the separator `": "`.
pub open spec fn has_sep(l: Seq<char>) -> bool {
    find_sep(l, 0) < l.len()
}

/// A header line's key (before the first `": "`) and value (from there up to
/// the next `": "` or the end of the line).
pub open spec fn header_of(l: Seq<char>) -> (Seq<char>, Seq<char>) {
    let p = find_sep(l, 0);
    (l.subrange(0, p), l.subrange(p + 2, find_sep(l, p + 2)))
}

/// The index of the first empty line at or after `k`, or `ls.len()`.
pub open spec fn blank_from(ls: Seq<Seq<char>>, k: int) -> int
    decreases ls.len() - k,
{
    if k >= ls.len() {
        ls.len() as int
    } else if ls[k].len() == 0 {
        k
    } else {
        blank_from(ls, k + 1)
    }
}

/// Every line in `1..b` is a well-formed header line.
pub open spec fn headers_ok(ls: Seq<Seq<char>>, b: int) -> bool {
    forall|k: int| 1 <= k < b ==> has_sep(#[trigger] ls[k])
}

/// The request that text `s` frames, if any. The first line holds the verb,
/// the target and the protocol as its first three tokens; the header lines run
/// up to the first empty line; the lines after it, joined without their
/// terminators, are the body.
pub open spec fn parse_request(s: Seq<char>) -> Option<RequestView> {
    let ls = lines(s);
    if ls.len() == 0 {
        None
    } else {
        let t = tokens(ls[0]);
        if t.len() == 0 || method_of(t[0]) is None || t.len() < 3 {
            None
        } else {
            let b = blank_from(ls, 1);
            if !headers_ok(ls, b) {
                None
            } else {
                Some(
                    RequestView {
                        method: method_of(t[0])->0,
                        uri: t[1],
                        http_ver: t[2],
                        headers: ls.subrange(1, b).map_values(|l: Seq<char>| header_of(l)),
                        body: if b < ls.len() {
                            ls.subrange(b + 1, ls.len() as int).flatten()
                        } else {
                            seq![]
                        },
                    },
                )
            }
        }
    }
}

/// The view of an optional request.
pub open spec fn request_view(r: Option<Request>) -> Option<RequestView> {
    match r {
        Some(q) => Some(q@),
        None => None,
    }
}

proof fn lemma_blank_from_bounds(ls: Seq<Seq<char>>, k: int)
    requires
        0 <= k <= ls.len(),
    ensures
        k <= blank_from(ls, k) <= ls.len(),
        blank_from(ls, k) < ls.len() ==> ls[blank_from(ls, k)].len() == 0,
    decreases ls.len() - k,
{
    if k < ls.len() && ls[k].len() != 0 {
        lemma_blank_from_bounds(ls, k + 1);
    }
}

proof fn lemma_blank_after(ls: Seq<Seq<char>>, j: int, k: int)
    requires
        1 <= j <= k + 1,
        k < ls.len(),
        forall|m: int| j <= m <= k ==> (#[trigger] ls[m]).len() > 0,
    ensures
        blank_from(ls, j) > k,
    decreases k + 1 - j,
{
    if j <= k {
        lemma_blank_after(ls, j + 1, k);
    } else {
        lemma_blank_from_bounds(ls, j);
    }
}

/// Malformed text frames no request: empty text, a first line with fewer
/// than three tokens, and a header line (line `k`, with no empty line before
/// it) that holds no `": "`.
pub proof fn lemma_malformed_rejected(s: Seq<char>, k: int)
    ensures
        s.len() == 0 ==> parse_request(s) is None,
        lines(s).len() > 0 && tokens(lines(s)[0]).len() < 3 ==> parse_request(s) is None,
        1 <= k < lines(s).len() && (forall|m: int| 1 <= m <= k ==> (#[trigger] lines(s)[m]).len()
            > 0) && (forall|j: int| !sep_at(lines(s)[k], j)) ==> parse_request(s) is None,
{
    let ls = lines(s);
    if s.len() == 0 {
        assert(ls =~= seq![]);
    }
    if 1 <= k < ls.len() && (forall|m: int| 1 <= m <= k ==> (#[trigger] ls[m]).len() > 0) && (
    forall|j: int| !sep_at(ls[k], j)) {
        lemma_blank_after(ls, 1, k);
        lemma_find_sep_found(ls[k], 0);
        assert(!has_sep(ls[k]));
    }
}

/// Splits one header line; `None` when it lacks `": "`.
fn split_header(line: &Vec<char>) -> (r: Option<Header>)
    ensures
        r is None <==> !has_sep(line@),
        r is Some ==> r->0@ == header_of(line@),
{
    let p = find_separator(line, 0);
    if p >= line.len() {
        None
    } else {
        let q = find_separator(line, p + 2);
        let key = string_of(line, 0, p);
        let value = string_of(line, p + 2, q);
        Some(Header { key, value })
    }
}

impl Request {
    /// Parses request text; `None` when the text frames no request.
    pub fn from_str(body: &str) -> (r: Option<Request>)
        ensures
            request_view(r) == parse_request(body@),
    {
        let chars = chars_of(body);
        let ls = split_lines(&chars);
        let ghost l = views(ls@);
        if ls.len() == 0 {
            return None;
        }
        assert(l[0] == ls@[0]@);
        let toks = split_ws(&ls[0]);
        let ghost t = views(toks@);
        if toks.len() == 0 {
            return None;
        }
        assert(t[0] == toks@[0]@);
        let first = string_of(&toks[0], 0, toks[0].len());
        assert(toks@[0]@.subrange(0, toks@[0]@.len() as int) == t[0]);
        let method = match Method::from_str(Some(first.as_str())) {
            Some(m) => m,
            None => {
                return None;
            },
        };
        if toks.len() < 3 {
            return None;
        }
        assert(t[1] == toks@[1]@ && t[2] == toks@[2]@);
        assert(toks@[1]@.subrange(0, toks@[1]@.len() as int) == t[1]);
        assert(toks@[2]@.subrange(0, toks@[2]@.len() as int) == t[2]);
        let uri = string_of(&toks[1], 0, toks[1].len());
        let http_ver = string_of(&toks[2], 0, toks[2].len());
        let mut headers: Vec<Header> = Vec::new();
        let mut body_chars: Vec<char> = Vec::new();
        let mut in_headers = true;
        let ghost b = blank_from(l, 1);
        proof {
            lemma_blank_from_bounds(l, 1);
        }
        let mut k: usize = 1;
        while k < ls.len()
            invariant
                l == views(ls@),
                lines(body@) == l,
                l.len() > 0,
                tokens(l[0]) == t,
                t.len() >= 3,
                method_of(t[0]) == Some(method),
                uri@ == t[1],
                http_ver@ == t[2],
                b == blank_from(l, 1),
                1 <= b <= l.len(),
                1 <= k <= ls.len(),
                in_headers ==> blank_from(l, k as int) == b,
                in_headers ==> headers_ok(l, k as int),
                in_headers ==> body_chars@ == Seq::<char>::empty(),
                in_headers ==> header_views(headers@) == l.subrange(1, k as int).map_values(
                    |x: Seq<char>| header_of(x),
                ),
                !in_headers ==> b < k,
                !in_headers ==> headers_ok(l, b),
                !in_headers ==> header_views(headers@) == l.subrange(1, b).map_values(
                    |x: Seq<char>| header_of(x),
                ),
                !in_headers ==> body_chars@ == l.subrange(b + 1, k as int).flatten(),
            decreases ls.len() - k,
        {
            let line = &ls[k];
            assert(l[k as int] == line@);
            if in_headers {
                if line.len() == 0 {
                    in_headers = false;
                    assert(l.subrange(b + 1, k + 1) =~= seq![]);
                    assert(l.subrange(b + 1, k + 1).flatten() =~= Seq::<char>::empty());
                } else {
                    match split_header(line) {
                        None => {
                            proof {
                                lemma_blank_from_bounds(l, k + 1);
                            }
                            assert(!has_sep(l[k as int]));
                            assert(!headers_ok(l, b));
                            return None;
                        },
                        Some(h) => {
                            let ghost old_headers = headers@;
                            headers.push(h);
                            assert(header_views(headers@) =~= header_views(old_headers).push(h@));
                            assert(l.subrange(1, k + 1) =~= l.subrange(1, k as int).push(
                                l[k as int],
                            ));
                            assert(l.subrange(1, k + 1).map_values(|x: Seq<char>| header_of(x))
                                =~= l.subrange(1, k as int).map_values(
                                |x: Seq<char>| header_of(x),
                            ).push(header_of(l[k as int])));
                        },
                    }
                }
            } else {
                extend_chars(&mut body_chars, line);
                assert(l.subrange(b + 1, k + 1) =~= l.subrange(b + 1, k as int).push(l[k as int]));
                proof {
                    l.subrange(b + 1, k as int).lemma_flatten_push(l[k as int]);
                }
            }
            k += 1;
        }
        let body_text = string_of(&body_chars, 0, body_chars.len());
        assert(body_chars@.subrange(0, body_chars@.len() as int) == body_chars@);
        let r = Request { http_ver, method, uri, headers, body: body_text };
        if in_headers {
            assert(l.subrange(1, k as int) == l.subrange(1, b));
        }
        Some(r)
    }
}

} // verus!
