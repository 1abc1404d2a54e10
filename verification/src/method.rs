//! The closed set of supported HTTP verbs, with a string round trip.

use crate::error::Error;
use crate::error::ErrorType;
use crate::strutil::str_eq;
use vstd::prelude::*;

verus! {

/// A supported HTTP verb. Any other token is an error, never a default.
#[derive(Debug, Clone, PartialEq, Eq, Structural)]
pub enum Method {
    HEAD,
    GET,
    POST,
    PUT,
    DELETE,
    PATCH,
}

/// The canonical uppercase token of a method.
pub open spec fn method_token(m: Method) -> Seq<char> {
    match m {
        Method::HEAD => "HEAD"@,
        Method::GET => "GET"@,
        Method::POST => "POST"@,
        Method::PUT => "PUT"@,
        Method::DELETE => "DELETE"@,
        Method::PATCH => "PATCH"@,
    }
}

/// The method a token names, if any: one of the six uppercase verbs, exactly
/// (case-sensitive, no trimming).
pub open spec fn method_of_token(s: Seq<char>) -> Option<Method> {
    if s == "HEAD"@ {
        Some(Method::HEAD)
    } else if s == "GET"@ {
        Some(Method::GET)
    } else if s == "POST"@ {
        Some(Method::POST)
    } else if s == "PUT"@ {
        Some(Method::PUT)
    } else if s == "DELETE"@ {
        Some(Method::DELETE)
    } else if s == "PATCH"@ {
        Some(Method::PATCH)
    } else {
        None
    }
}

impl Method {
    /// Create a `Method` from its string representation; a token that names
    /// no method fails with `InvalidMethod`.
    pub fn from_string(from: &str) -> (r: Result<Method, Error>)
        ensures
            method_of_token(from@) matches Some(m) ==> r == Ok::<Method, Error>(m),
            method_of_token(from@) is None ==> (r matches Err(e) && e.err_type
                == ErrorType::InvalidMethod && e.msg@ == "Invalid or unsupported http method"@),
    {
        if str_eq(from, "HEAD") {
            Ok(Method::HEAD)
        } else if str_eq(from, "GET") {
            Ok(Method::GET)
        } else if str_eq(from, "POST") {
            Ok(Method::POST)
        } else if str_eq(from, "PUT") {
            Ok(Method::PUT)
        } else if str_eq(from, "DELETE") {
            Ok(Method::DELETE)
        } else if str_eq(from, "PATCH") {
            Ok(Method::PATCH)
        } else {
            Err(
                Error {
                    err_type: ErrorType::InvalidMethod,
                    msg: String::from_str("Invalid or unsupported http method"),
                },
            )
        }
    }

    /// The canonical uppercase token of this method.
    pub fn to_string(&self) -> (r: String)
        ensures
            r@ == method_token(*self),
    {
        match self {
            Method::HEAD => String::from_str("HEAD"),
            Method::GET => String::from_str("GET"),
            Method::POST => String::from_str("POST"),
            Method::PUT => String::from_str("PUT"),
            Method::DELETE => String::from_str("DELETE"),
            Method::PATCH => String::from_str("PATCH"),
        }
    }
}

/// Law: a token that parses to a method is that method's own token, so
/// parsing and then rendering returns the original token.
pub proof fn lemma_method_round_trip(s: Seq<char>)
    ensures
        method_of_token(s) matches Some(m) ==> method_token(m) == s,
{
}

/// Law: each method's token parses back to the method itself.
pub proof fn lemma_method_token_parses(m: Method)
    ensures
        method_of_token(method_token(m)) == Some(m),
{
    reveal_strlit("HEAD");
    reveal_strlit("GET");
    reveal_strlit("POST");
    reveal_strlit("PUT");
    reveal_strlit("DELETE");
    reveal_strlit("PATCH");
    assert("HEAD"@.len() == 4);
    assert("GET"@.len() == 3);
    assert("POST"@.len() == 4);
    assert("PUT"@.len() == 3);
    assert("DELETE"@.len() == 6);
    assert("PATCH"@.len() == 5);
    assert("PUT"@[0] != "GET"@[0]);
    assert("POST"@[0] != "HEAD"@[0]);
    match m {
        Method::HEAD => assert(method_of_token("HEAD"@) == Some(Method::HEAD)),
        Method::GET => assert(method_of_token("GET"@) == Some(Method::GET)),
        Method::POST => assert(method_of_token("POST"@) == Some(Method::POST)),
        Method::PUT => assert(method_of_token("PUT"@) == Some(Method::PUT)),
        Method::DELETE => assert(method_of_token("DELETE"@) == Some(Method::DELETE)),
        Method::PATCH => assert(method_of_token("PATCH"@) == Some(Method::PATCH)),
    }
}

} // verus!
