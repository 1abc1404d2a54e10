//! The closed set of supported response statuses, each with one numeric code
//! and one fixed uppercase reason phrase.

use crate::strutil::dec_str;
use crate::strutil::usize_to_string;
use crate::wire::sp;
use vstd::prelude::*;

verus! {

/// A supported response status. The mapping to code and reason phrase is a
/// total function with no fallback case.
#[derive(Debug, Clone, PartialEq, Eq, Structural)]
pub enum Status {
    Okay,
    SeeOther,
    NotFound,
    InternalServerError,
    BadRequest,
    Unauthorized,
    Forbidden,
    NotAllowed,
}

/// The numeric code of a status.
pub open spec fn status_code(s: Status) -> u16 {
    match s {
        Status::Okay => 200,
        Status::SeeOther => 303,
        Status::BadRequest => 400,
        Status::Unauthorized => 401,
        Status::Forbidden => 403,
        Status::NotFound => 404,
        Status::NotAllowed => 405,
        Status::InternalServerError => 500,
    }
}

/// The fixed uppercase reason phrase of a status.
pub open spec fn status_message(s: Status) -> Seq<char> {
    match s {
        Status::Okay => "OK"@,
        Status::SeeOther => "SEE OTHER"@,
        Status::BadRequest => "BAD REQUEST"@,
        Status::Unauthorized => "UNAUTHORIZED"@,
        Status::Forbidden => "FORBIDDEN"@,
        Status::NotFound => "NOT FOUND"@,
        Status::NotAllowed => "NOT ALLOWED"@,
        Status::InternalServerError => "INTERNAL SERVER ERROR"@,
    }
}

/// The status line fragment of a status: its code, one space, its phrase.
pub open spec fn status_render(s: Status) -> Seq<char> {
    dec_str(status_code(s) as nat) + sp() + status_message(s)
}

impl Status {
    /// The numeric representation of the status code.
    pub fn code(&self) -> (r: u16)
        ensures
            r == status_code(*self),
    {
        match self {
            Status::Okay => 200,
            Status::SeeOther => 303,
            Status::BadRequest => 400,
            Status::Unauthorized => 401,
            Status::Forbidden => 403,
            Status::NotFound => 404,
            Status::NotAllowed => 405,
            Status::InternalServerError => 500,
        }
    }

    /// The reason phrase of the status.
    pub fn message(&self) -> (r: &'static str)
        ensures
            r@ == status_message(*self),
    {
        match self {
            Status::Okay => "OK",
            Status::SeeOther => "SEE OTHER",
            Status::BadRequest => "BAD REQUEST",
            Status::Unauthorized => "UNAUTHORIZED",
            Status::Forbidden => "FORBIDDEN",
            Status::NotFound => "NOT FOUND",
            Status::NotAllowed => "NOT ALLOWED",
            Status::InternalServerError => "INTERNAL SERVER ERROR",
        }
    }

    /// The plaintext representation of the status: `"{code} {message}"`.
    pub fn to_string(&self) -> (r: String)
        ensures
            r@ == status_render(*self),
    {
        let mut r = usize_to_string(self.code() as usize);
        r.append(" ");
        r.append(self.message());
        proof {
            crate::wire::lemma_wire_literals();
        }
        r
    }
}

} // verus!
