//! The status codes a response can carry.
use vstd::prelude::*;

verus! {

/// A response status.
#[derive(Clone, Copy, Debug, PartialEq, Eq, Structural)]
pub enum StatusCode {
    OK,
    Created,
    Accepted,
    NoContent,
    BadRequest,
    Unauthorized,
    Forbidden,
    NotFound,
}

/// The status-line text of a status: its number and reason phrase.
pub open spec fn status_text(s: StatusCode) -> Seq<char> {
    match s {
        StatusCode::OK => "200 OK"@,
        StatusCode::Created => "201 Created"@,
        StatusCode::Accepted => "202 Accepted"@,
        StatusCode::NoContent => "204 No Content"@,
        StatusCode::BadRequest => "400 Bad Request"@,
        StatusCode::Unauthorized => "401 Unauthorized"@,
        StatusCode::Forbidden => "403 Forbidden"@,
        StatusCode::NotFound => "404 Not Found"@,
    }
}

impl StatusCode {
    /// The status-line text of this status.
    pub fn text(&self) -> (r: &'static str)
        ensures
            r@ == status_text(*self),
    {
        match self {
            StatusCode::OK => "200 OK",
            StatusCode::Created => "201 Created",
            StatusCode::Accepted => "202 Accepted",
            StatusCode::NoContent => "204 No Content",
            StatusCode::BadRequest => "400 Bad Request",
            StatusCode::Unauthorized => "401 Unauthorized",
            StatusCode::Forbidden => "403 Forbidden",
            StatusCode::NotFound => "404 Not Found",
        }
    }
}

} // verus!
