//! Response framing: a status line, then the length and the body when there
//! is one.
use vstd::prelude::*;
use vstd::string::StringExecFns;
use vstd::utf8::encode_utf8;
use crate::status::{StatusCode, status_text};
use crate::text::string_of;

verus! {

broadcast use vstd::string::group_string_axioms;

/// The character for a decimal digit.
pub open spec fn digit_char(d: nat) -> char {
    if d == 0 {
        '0'
    } else if d == 1 {
        '1'
    } else if d == 2 {
        '2'
    } else if d == 3 {
        '3'
    } else if d == 4 {
        '4'
    } else if d == 5 {
        '5'
    } else if d == 6 {
        '6'
    } else if d == 7 {
        '7'
    } else if d == 8 {
        '8'
    } else {
        '9'
    }
}

/// The decimal spelling of `n`, without leading zeros.
pub open spec fn decimal(n: nat) -> Seq<char>
    decreases n,
{
    if n < 10 {
        seq![digit_char(n)]
    } else {
        decimal(n / 10).push(digit_char(n % 10))
    }
}

/// The number of bytes `s` takes in UTF-8.
pub open spec fn byte_len(s: Seq<char>) -> nat {
    encode_utf8(s).len()
}

/// The status line of a response, terminator included.
pub open spec fn status_line(s: StatusCode) -> Seq<char> {
    "HTTP/1.1 "@ + status_text(s) + "\r\n"@
}

/// The framing of a response with status `s` and body `body`: the status line
/// alone for an empty body, else the status line, a `Content-Length` line
/// giving the body's size in bytes, an empty line, and the body.
pub open spec fn response_text(s: StatusCode, body: Seq<char>) -> Seq<char> {
    if body.len() == 0 {
        status_line(s)
    } else {
        status_line(s) + "Content-Length: "@ + decimal(byte_len(body)) + "\r\n\r\n"@ + body
    }
}

proof fn lemma_status_line_shape(s: StatusCode)
    ensures
        status_line(s).len() >= 2,
        status_line(s)[status_line(s).len() - 2] == '\r',
        status_line(s)[status_line(s).len() - 1] == '\n',
        forall|i: int| 0 <= i < status_line(s).len() - 1 ==> status_line(s)[i] != '\n',
{
    reveal_strlit("HTTP/1.1 ");
    reveal_strlit("\r\n");
    reveal_strlit("200 OK");
    reveal_strlit("201 Created");
    reveal_strlit("202 Accepted");
    reveal_strlit("204 No Content");
    reveal_strlit("400 Bad Request");
    reveal_strlit("401 Unauthorized");
    reveal_strlit("403 Forbidden");
    reveal_strlit("404 Not Found");
    let l = status_line(s);
    let t = status_text(s);
    assert(forall|i: int| 0 <= i < t.len() ==> t[i] != '\n');
    assert forall|i: int| 0 <= i < l.len() - 1 implies l[i] != '\n' by {
        if i < 9 {
            assert(l[i] == "HTTP/1.1 "@[i]);
        } else if i < 9 + t.len() {
            assert(l[i] == t[i - 9]);
        } else {
            assert(l[i] == '\r');
        }
    }
}

/// Framing of a response: with an empty body it is one line ending in CRLF
/// and nothing else, so it holds no `Content-Length`; with a body of `L`
/// bytes it is the status line, `Content-Length: L`, an empty line, and the
/// body, which ends the response.
pub proof fn lemma_response_framing(s: StatusCode, body: Seq<char>)
    ensures
        body.len() == 0 ==> {
            let r = response_text(s, body);
            &&& r == status_line(s)
            &&& r.len() >= 2
            &&& r[r.len() - 2] == '\r' && r[r.len() - 1] == '\n'
            &&& forall|i: int| 0 <= i < r.len() - 1 ==> r[i] != '\n'
        },
        body.len() > 0 ==> {
            let r = response_text(s, body);
            &&& r == status_line(s) + "Content-Length: "@ + decimal(byte_len(body)) + "\r\n\r\n"@
                + body
            &&& r.subrange(r.len() - body.len(), r.len() as int) == body
        },
{
    lemma_status_line_shape(s);
    if body.len() > 0 {
        let r = response_text(s, body);
        let h = status_line(s) + "Content-Length: "@ + decimal(byte_len(body)) + "\r\n\r\n"@;
        assert(r == h + body);
        assert(r.subrange(r.len() - body.len(), r.len() as int) =~= body);
    }
}

fn digit(d: usize) -> (c: char)
    requires
        d < 10,
    ensures
        c == digit_char(d as nat),
{
    if d == 0 {
        '0'
    } else if d == 1 {
        '1'
    } else if d == 2 {
        '2'
    } else if d == 3 {
        '3'
    } else if d == 4 {
        '4'
    } else if d == 5 {
        '5'
    } else if d == 6 {
        '6'
    } else if d == 7 {
        '7'
    } else if d == 8 {
        '8'
    } else {
        '9'
    }
}

fn push_decimal(out: &mut Vec<char>, n: usize)
    ensures
        final(out)@ == old(out)@ + decimal(n as nat),
    decreases n,
{
    if n >= 10 {
        push_decimal(out, n / 10);
    }
    out.push(digit(n % 10));
    assert(final(out)@ =~= old(out)@ + decimal(n as nat));
}

/// The decimal spelling of `n`.
pub fn decimal_string(n: usize) -> (r: String)
    ensures
        r@ == decimal(n as nat),
{
    let mut v: Vec<char> = Vec::new();
    push_decimal(&mut v, n);
    assert(v@ =~= decimal(n as nat));
    string_of(&v, 0, v.len())
}

/// Frames a response with status `status` and body `body`.
pub fn render_response(status: StatusCode, body: &str) -> (r: String)
    requires
        byte_len(body@) <= usize::MAX,
    ensures
        r@ == response_text(status, body@),
{
    let mut out = String::from_str("HTTP/1.1 ");
    out.append(status.text());
    out.append("\r\n");
    assert(out@ =~= status_line(status));
    if !body.is_empty() {
        out.append("Content-Length: ");
        let size = body.len();
        assert(size == byte_len(body@));
        let n = decimal_string(size);
        out.append(n.as_str());
        out.append("\r\n\r\n");
        out.append(body);
        assert(out@ =~= response_text(status, body@));
    }
    out
}

} // verus!
