//! An ordered key/value pair with its wire-format rendering. Duplicate keys
//! are legal and kept in insertion order.

use crate::wire::colon_sp;
use vstd::prelude::*;

verus! {

/// One header: a key and a value, immutable once constructed. No character
/// validation is done; the caller owns that concern.
#[derive(Debug, Clone, PartialEq)]
pub struct Header {
    pub key: String,
    pub value: String,
}

/// The wire rendering of one header: `"{key}: {value}"`, with exactly one
/// space after the colon.
pub open spec fn header_render(h: Header) -> Seq<char> {
    h.key@ + colon_sp() + h.value@
}

/// The key/value views of a sequence of headers.
pub open spec fn headers_view(hs: Seq<Header>) -> Seq<(Seq<char>, Seq<char>)> {
    hs.map_values(|h: Header| (h.key@, h.value@))
}

impl Header {
    /// Create a header from a key/value pair.
    pub fn new(key: &str, value: &str) -> (r: Header)
        ensures
            r.key@ == key@,
            r.value@ == value@,
    {
        Header { key: String::from_str(key), value: String::from_str(value) }
    }

    /// The plaintext representation of the header.
    pub fn to_string(&self) -> (r: String)
        ensures
            r@ == header_render(*self),
    {
        let mut r = self.key.clone();
        r.append(": ");
        r.append(self.value.as_str());
        proof {
            crate::wire::lemma_wire_literals();
        }
        r
    }
}

} // verus!
