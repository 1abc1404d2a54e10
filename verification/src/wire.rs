//! The fixed pieces of the wire format: the line terminator and the
//! separators of the start line and of a header line.

use vstd::prelude::*;

verus! {

/// The line terminator.
pub open spec fn crlf() -> Seq<char> {
    seq!['\r', '\n']
}

/// The token separator of the start line.
pub open spec fn sp() -> Seq<char> {
    seq![' ']
}

/// The key/value separator of a header line.
pub open spec fn colon_sp() -> Seq<char> {
    seq![':', ' ']
}

/// The scheme/version separator of a protocol token.
pub open spec fn slash() -> Seq<char> {
    seq!['/']
}

/// The string literals of the wire format, as character sequences.
pub proof fn lemma_wire_literals()
    ensures
        "\r\n"@ == crlf(),
        " "@ == sp(),
        ": "@ == colon_sp(),
        "/"@ == slash(),
        "?"@ == seq!['?'],
        "&"@ == seq!['&'],
        "="@ == seq!['='],
{
    reveal_strlit("\r\n");
    reveal_strlit(" ");
    reveal_strlit(": ");
    reveal_strlit("/");
    reveal_strlit("?");
    reveal_strlit("&");
    reveal_strlit("=");
    assert("\r\n"@ =~= crlf());
    assert(" "@ =~= sp());
    assert(": "@ =~= colon_sp());
    assert("/"@ =~= slash());
    assert("?"@ =~= seq!['?']);
    assert("&"@ =~= seq!['&']);
    assert("="@ =~= seq!['=']);
}

} // verus!
