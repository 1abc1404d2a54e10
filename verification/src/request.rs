//! The request side: a parsed URI and the four-stage parse of a complete
//! request buffer (line split, start line, header block, body capture).
//!
//! The start line is strict: its first failure aborts the whole parse.
//! Header lines and query tokens are lenient: one that fails to parse is
//! dropped and parsing goes on. The asymmetry is deliberate: a malformed
//! start line makes the message unclassifiable, a malformed header does not.

use crate::error::Error;
use crate::error::ErrorType;
use crate::header::headers_view;
use crate::header::Header;
use crate::method::method_of_token;
use crate::method::Method;
use crate::strutil::find_in;
use crate::strutil::find_sub;
use crate::strutil::lemma_find_sub;
use crate::strutil::split_seq;
use crate::strutil::split_str;
use crate::strutil::strs_view;
use crate::strutil::substr_copy;
use crate::wire::colon_sp;
use crate::wire::crlf;
use crate::wire::lemma_wire_literals;
use crate::wire::slash;
use crate::wire::sp;
use vstd::prelude::*;

verus! {

/// One query pair of a URI: `key[=value]`, the value empty when nothing
/// follows the `=`.
#[derive(Debug, PartialEq)]
pub struct Query {
    pub key: String,
    pub value: String,
}

/// A parsed URI: the bare path and its query pairs, in order.
#[derive(Debug, PartialEq)]
pub struct Path {
    pub uri: String,
    pub query: Vec<Query>,
}

/// A parsed request, built atomically by one parse call.
#[derive(Debug, PartialEq)]
pub struct Request {
    pub method: Method,
    pub path: Path,
    pub scheme: String,
    pub version: String,
    pub headers: Vec<Header>,
    pub body: String,
}

/// The lines of a buffer: the pieces between line terminators.
pub open spec fn req_lines(buffer: Seq<char>) -> Seq<Seq<char>> {
    split_seq(buffer, crlf())
}

/// The space-separated tokens of a line.
pub open spec fn line_tokens(line: Seq<char>) -> Seq<Seq<char>> {
    split_seq(line, sp())
}

/// The space-separated tokens of a buffer's start line.
pub open spec fn start_tokens(buffer: Seq<char>) -> Seq<Seq<char>> {
    line_tokens(req_lines(buffer)[0])
}

/// The `/`-separated tokens of a protocol token such as `HTTP/1.1`.
pub open spec fn proto_tokens(tok: Seq<char>) -> Seq<Seq<char>> {
    split_seq(tok, slash())
}

/// The buffer fails with `InvalidMethod`: its first token names no method.
pub open spec fn method_err(buffer: Seq<char>) -> bool {
    method_of_token(start_tokens(buffer)[0]) is None
}

/// The buffer fails on the start line: a valid method but fewer than three
/// tokens, so the path or the protocol token is missing.
pub open spec fn start_line_err(buffer: Seq<char>) -> bool {
    &&& !method_err(buffer)
    &&& start_tokens(buffer).len() < 3
}

/// The buffer fails on the protocol token: no `/` between scheme and version.
pub open spec fn proto_err(buffer: Seq<char>) -> bool {
    &&& !method_err(buffer)
    &&& !start_line_err(buffer)
    &&& proto_tokens(start_tokens(buffer)[2]).len() < 2
}

/// The whole parse succeeds: the three start-line failures are the only
/// fatal ones.
pub open spec fn req_ok(buffer: Seq<char>) -> bool {
    &&& !method_err(buffer)
    &&& !start_line_err(buffer)
    &&& !proto_err(buffer)
}

/// The raw path token of the start line.
pub open spec fn req_raw_path(buffer: Seq<char>) -> Seq<char> {
    start_tokens(buffer)[1]
}

/// The scheme: the text of the protocol token before its first `/`.
pub open spec fn req_scheme(buffer: Seq<char>) -> Seq<char> {
    proto_tokens(start_tokens(buffer)[2])[0]
}

/// The version: the protocol token's second `/`-separated token.
pub open spec fn req_version(buffer: Seq<char>) -> Seq<char> {
    proto_tokens(start_tokens(buffer)[2])[1]
}

/// One query token: the key before the first `=`, the value everything after
/// it; a token without `=` is no pair.
pub open spec fn query_pair(tok: Seq<char>) -> Option<(Seq<char>, Seq<char>)> {
    match find_sub(tok, seq!['=']) {
        None => None,
        Some(i) => Some((tok.take(i), tok.skip(i + 1))),
    }
}

/// The pairs of the query tokens that parse, in order; tokens that fail are
/// dropped.
pub open spec fn query_list(toks: Seq<Seq<char>>) -> Seq<(Seq<char>, Seq<char>)>
    decreases toks.len(),
{
    if toks.len() == 0 {
        Seq::empty()
    } else {
        match query_pair(toks[0]) {
            Some(kv) => seq![kv] + query_list(toks.drop_first()),
            None => query_list(toks.drop_first()),
        }
    }
}

/// The bare path of a raw URI: everything before the first `?`, or the whole
/// input when there is none.
pub open spec fn path_uri(raw: Seq<char>) -> Seq<char> {
    match find_sub(raw, seq!['?']) {
        None => raw,
        Some(i) => raw.take(i),
    }
}

/// The query pairs of a raw URI: the `&`-separated tokens after the first
/// `?` that parse; none when there is no `?` or nothing follows it.
pub open spec fn path_query(raw: Seq<char>) -> Seq<(Seq<char>, Seq<char>)> {
    match find_sub(raw, seq!['?']) {
        None => Seq::empty(),
        Some(i) => {
            let qs = raw.skip(i + 1);
            if qs.len() == 0 {
                Seq::empty()
            } else {
                query_list(split_seq(qs, seq!['&']))
            }
        },
    }
}

/// One header line: its first two `": "`-separated tokens; a line without
/// the separator is no header.
pub open spec fn header_pair(line: Seq<char>) -> Option<(Seq<char>, Seq<char>)> {
    let t = split_seq(line, colon_sp());
    if t.len() < 2 {
        None
    } else {
        Some((t[0], t[1]))
    }
}

/// The headers among the lines before the first empty one: those that parse,
/// in order; lines that fail are dropped.
pub open spec fn header_list(ls: Seq<Seq<char>>) -> Seq<(Seq<char>, Seq<char>)>
    decreases ls.len(),
{
    if ls.len() == 0 || ls[0].len() == 0 {
        Seq::empty()
    } else {
        match header_pair(ls[0]) {
            Some(kv) => seq![kv] + header_list(ls.drop_first()),
            None => header_list(ls.drop_first()),
        }
    }
}

/// Lines joined back together with no terminator between them.
pub open spec fn concat_lines(ls: Seq<Seq<char>>) -> Seq<char>
    decreases ls.len(),
{
    if ls.len() == 0 {
        Seq::empty()
    } else {
        ls[0] + concat_lines(ls.drop_first())
    }
}

/// The body: the lines after the first empty one, joined; empty when no
/// empty line separates headers from a body.
pub open spec fn body_text(ls: Seq<Seq<char>>) -> Seq<char>
    decreases ls.len(),
{
    if ls.len() == 0 {
        Seq::empty()
    } else if ls[0].len() == 0 {
        concat_lines(ls.drop_first())
    } else {
        body_text(ls.drop_first())
    }
}

/// The key/value views of a sequence of query pairs.
pub open spec fn query_view(qs: Seq<Query>) -> Seq<(Seq<char>, Seq<char>)> {
    qs.map_values(|q: Query| (q.key@, q.value@))
}

impl Path {
    /// Parse one `key[=value]` query token; a token without `=` fails with
    /// `ParserError`.
    pub fn parse_query(query: &str) -> (r: Result<Query, Error>)
        ensures
            query_pair(query@) matches Some(kv) ==> (r matches Ok(q) && q.key@ == kv.0 && q.value@
                == kv.1),
            query_pair(query@) is None ==> (r matches Err(e) && e.err_type
                == ErrorType::ParserError && e.msg@ == "Invalid query string format"@),
    {
        proof {
            lemma_wire_literals();
        }
        let n = query.unicode_len();
        match find_in(query, "=") {
            None => Err(
                Error {
                    err_type: ErrorType::ParserError,
                    msg: String::from_str("Invalid query string format"),
                },
            ),
            Some(i) => {
                proof {
                    lemma_find_sub(query@, "="@);
                }
                let key = substr_copy(query, 0, i);
                let value = substr_copy(query, i + 1, n);
                proof {
                    assert(key@ =~= query@.take(i as int));
                    assert(value@ =~= query@.skip(i + 1));
                }
                Ok(Query { key, value })
            },
        }
    }

    /// Split a raw path on its first `?` into the bare uri and the parsed
    /// query pairs; query tokens that fail to parse are dropped, never the
    /// whole path.
    pub fn from_string(path: &str) -> (r: Path)
        ensures
            r.uri@ == path_uri(path@),
            query_view(r.query@) == path_query(path@),
    {
        proof {
            lemma_wire_literals();
        }
        let n = path.unicode_len();
        match find_in(path, "?") {
            None => {
                let r = Path { uri: String::from_str(path), query: Vec::new() };
                proof {
                    assert(query_view(r.query@) =~= Seq::<(Seq<char>, Seq<char>)>::empty());
                }
                r
            },
            Some(i) => {
                proof {
                    lemma_find_sub(path@, "?"@);
                }
                let uri = substr_copy(path, 0, i);
                proof {
                    assert(uri@ =~= path@.take(i as int));
                }
                let qs = path.substring_char(i + 1, n);
                proof {
                    assert(qs@ =~= path@.skip(i + 1));
                }
                if qs.unicode_len() == 0 {
                    let r = Path { uri, query: Vec::new() };
                    proof {
                        assert(query_view(r.query@) =~= Seq::<(Seq<char>, Seq<char>)>::empty());
                    }
                    r
                } else {
                    let toks = split_str(qs, "&");
                    let ghost tm = strs_view(toks@);
                    let mut query: Vec<Query> = Vec::new();
                    proof {
                        assert(tm == split_seq(qs@, seq!['&']));
                        assert(tm.skip(0) =~= tm);
                        assert(query_view(query@) =~= Seq::<(Seq<char>, Seq<char>)>::empty());
                        assert(query_view(query@) + query_list(tm) =~= query_list(tm));
                    }
                    let mut k: usize = 0;
                    while k < toks.len()
                        invariant
                            k <= toks@.len(),
                            tm == strs_view(toks@),
                            query_list(tm) == query_view(query@) + query_list(tm.skip(k as int)),
                        decreases toks@.len() - k,
                    {
                        let ghost old_q = query@;
                        let tok = &toks[k];
                        match Self::parse_query(tok.as_str()) {
                            Ok(q) => {
                                query.push(q);
                            },
                            Err(_) => {},
                        }
                        proof {
                            assert(tm.skip(k as int)[0] == toks@[k as int]@);
                            assert(tm.skip(k as int).drop_first() =~= tm.skip(k + 1));
                            match query_pair(tm.skip(k as int)[0]) {
                                Some(kv) => {
                                    assert(query_view(query@) =~= query_view(old_q).push(kv));
                                    assert(query_view(old_q) + (seq![kv] + query_list(
                                        tm.skip(k + 1),
                                    )) =~= query_view(query@) + query_list(tm.skip(k + 1)));
                                },
                                None => {},
                            }
                        }
                        k = k + 1;
                    }
                    proof {
                        assert(tm.skip(toks@.len() as int) =~= Seq::<Seq<char>>::empty());
                        assert(query_view(query@) + Seq::<(Seq<char>, Seq<char>)>::empty()
                            =~= query_view(query@));
                    }
                    Path { uri, query }
                }
            },
        }
    }
}

impl Request {
    /// Parse a plaintext request buffer into a `Request`.
    pub fn from_string(buffer: &str) -> (r: Result<Request, Error>)
        ensures
            method_err(buffer@) ==> (r matches Err(e) && e.err_type == ErrorType::InvalidMethod
                && e.msg@ == "Invalid or unsupported http method"@),
            start_line_err(buffer@) ==> (r matches Err(e) && e.err_type == ErrorType::ParserError
                && e.msg@ == "Invalid start line format"@),
            proto_err(buffer@) ==> (r matches Err(e) && e.err_type == ErrorType::ParserError
                && e.msg@ == "Invalid protocol format"@),
            req_ok(buffer@) ==> (r matches Ok(q) && Some(q.method) == method_of_token(
                start_tokens(buffer@)[0],
            ) && q.path.uri@ == path_uri(req_raw_path(buffer@)) && query_view(q.path.query@)
                == path_query(req_raw_path(buffer@)) && q.scheme@ == req_scheme(buffer@)
                && q.version@ == req_version(buffer@) && headers_view(q.headers@) == header_list(
                req_lines(buffer@).skip(1),
            ) && q.body@ == body_text(req_lines(buffer@).skip(1))),
    {
        Self::parse(buffer)
    }

    /// The four-stage pipeline over the buffer: split into lines, parse the
    /// start line strictly, collect the header block leniently, join the
    /// lines after the blank separator into the body.
    fn parse(buffer: &str) -> (r: Result<Request, Error>)
        ensures
            method_err(buffer@) ==> (r matches Err(e) && e.err_type == ErrorType::InvalidMethod
                && e.msg@ == "Invalid or unsupported http method"@),
            start_line_err(buffer@) ==> (r matches Err(e) && e.err_type == ErrorType::ParserError
                && e.msg@ == "Invalid start line format"@),
            proto_err(buffer@) ==> (r matches Err(e) && e.err_type == ErrorType::ParserError
                && e.msg@ == "Invalid protocol format"@),
            req_ok(buffer@) ==> (r matches Ok(q) && Some(q.method) == method_of_token(
                start_tokens(buffer@)[0],
            ) && q.path.uri@ == path_uri(req_raw_path(buffer@)) && query_view(q.path.query@)
                == path_query(req_raw_path(buffer@)) && q.scheme@ == req_scheme(buffer@)
                && q.version@ == req_version(buffer@) && headers_view(q.headers@) == header_list(
                req_lines(buffer@).skip(1),
            ) && q.body@ == body_text(req_lines(buffer@).skip(1))),
    {
        proof {
            lemma_wire_literals();
        }
        let lines = split_str(buffer, "\r\n");
        let ghost lm = strs_view(lines@);
        proof {
            assert(lm == req_lines(buffer@));
            lemma_find_sub(buffer@, crlf());
            match find_sub(buffer@, crlf()) {
                None => assert(lm.len() >= 1),
                Some(i) => assert(lm.len() >= 1),
            }
            assert(lm[0] == lines@[0]@);
        }
        let parsed = match Self::parse_start_line(lines[0].as_str()) {
            Ok(p) => p,
            Err(e) => {
                return Err(e);
            },
        };
        let (method, raw_path, scheme, version) = parsed;
        let mut headers: Vec<Header> = Vec::new();
        let mut k: usize = 1;
        proof {
            assert(headers_view(headers@) =~= Seq::<(Seq<char>, Seq<char>)>::empty());
            assert(headers_view(headers@) + header_list(lm.skip(1)) =~= header_list(lm.skip(1)));
        }
        while k < lines.len() && lines[k].as_str().unicode_len() > 0
            invariant
                1 <= k <= lm.len(),
                lm == strs_view(lines@),
                header_list(lm.skip(1)) == headers_view(headers@) + header_list(lm.skip(k as int)),
                body_text(lm.skip(1)) == body_text(lm.skip(k as int)),
            decreases lm.len() - k,
        {
            let ghost old_h = headers@;
            proof {
                assert(lm.skip(k as int)[0] == lines@[k as int]@);
                assert(lm.skip(k as int).drop_first() =~= lm.skip(k + 1));
            }
            match Self::parse_header(lines[k].as_str()) {
                Ok(h) => {
                    headers.push(h);
                    proof {
                        match header_pair(lm.skip(k as int)[0]) {
                            Some(kv) => {
                                assert(headers_view(headers@) =~= headers_view(old_h).push(kv));
                                assert(headers_view(old_h) + (seq![kv] + header_list(
                                    lm.skip(k + 1),
                                )) =~= headers_view(headers@) + header_list(lm.skip(k + 1)));
                            },
                            None => {},
                        }
                    }
                },
                Err(_) => {},
            }
            k = k + 1;
        }
        let mut body = String::new();
        if k < lines.len() {
            let mut j: usize = k + 1;
            proof {
                assert(lm.skip(k as int)[0] == lines@[k as int]@);
                assert(lm.skip(k as int).drop_first() =~= lm.skip(k + 1));
                assert(header_list(lm.skip(k as int)) =~= Seq::<(Seq<char>, Seq<char>)>::empty());
                assert(headers_view(headers@) + header_list(lm.skip(k as int)) =~= headers_view(
                    headers@,
                ));
                assert(body_text(lm.skip(k as int)) == concat_lines(lm.skip(k + 1)));
            }
            while j < lines.len()
                invariant
                    k + 1 <= j <= lm.len(),
                    lm == strs_view(lines@),
                    concat_lines(lm.skip(k + 1)) == body@ + concat_lines(lm.skip(j as int)),
                decreases lm.len() - j,
            {
                proof {
                    assert(lm.skip(j as int)[0] == lines@[j as int]@);
                    assert(lm.skip(j as int).drop_first() =~= lm.skip(j + 1));
                }
                body.append(lines[j].as_str());
                j = j + 1;
            }
            proof {
                assert(lm.skip(lm.len() as int) =~= Seq::<Seq<char>>::empty());
                assert(body@ + Seq::<char>::empty() =~= body@);
            }
        } else {
            proof {
                assert(lm.skip(lm.len() as int) =~= Seq::<Seq<char>>::empty());
                assert(headers_view(headers@) + Seq::<(Seq<char>, Seq<char>)>::empty()
                    =~= headers_view(headers@));
            }
        }
        let path = Path::from_string(raw_path.as_str());
        Ok(Request { method, path, scheme, version, headers, body })
    }

    /// Split a header line on the literal `": "` into its key and value; a
    /// line without the separator fails with `ParserError`.
    fn parse_header(line: &str) -> (r: Result<Header, Error>)
        ensures
            header_pair(line@) matches Some(kv) ==> (r matches Ok(h) && h.key@ == kv.0 && h.value@
                == kv.1),
            header_pair(line@) is None ==> (r matches Err(e) && e.err_type
                == ErrorType::ParserError && e.msg@ == "Invalid header format"@),
    {
        proof {
            lemma_wire_literals();
        }
        let n = line.unicode_len();
        match find_in(line, ": ") {
            None => Err(
                Error {
                    err_type: ErrorType::ParserError,
                    msg: String::from_str("Invalid header format"),
                },
            ),
            Some(i) => {
                proof {
                    lemma_find_sub(line@, ": "@);
                }
                let key = substr_copy(line, 0, i);
                let rest = line.substring_char(i + 2, n);
                proof {
                    assert(rest@ =~= line@.skip(i + 2));
                }
                let value = match find_in(rest, ": ") {
                    None => String::from_str(rest),
                    Some(j) => {
                        proof {
                            lemma_find_sub(rest@, ": "@);
                        }
                        substr_copy(rest, 0, j)
                    },
                };
                proof {
                    let t = split_seq(line@, colon_sp());
                    assert(t == seq![line@.subrange(0, i as int)] + split_seq(rest@, colon_sp()));
                    assert(t[0] == line@.subrange(0, i as int));
                    assert(t[1] == split_seq(rest@, colon_sp())[0]);
                    assert(key@ == t[0]);
                    match find_sub(rest@, colon_sp()) {
                        None => {
                            assert(split_seq(rest@, colon_sp()) == seq![rest@]);
                        },
                        Some(j) => {
                            assert(split_seq(rest@, colon_sp())[0] == rest@.subrange(0, j));
                        },
                    }
                    assert(value@ == t[1]);
                    assert(header_pair(line@) == Some((t[0], t[1])));
                }
                Ok(Header { key, value })
            },
        }
    }

    /// Split a protocol token such as `HTTP/1.1` on `/` into scheme and
    /// version; a token without `/` fails with `ParserError`.
    fn parse_protocol(line: &str) -> (r: Result<(String, String), Error>)
        ensures
            proto_tokens(line@).len() >= 2 ==> (r matches Ok(p) && p.0@ == proto_tokens(line@)[0]
                && p.1@ == proto_tokens(line@)[1]),
            proto_tokens(line@).len() < 2 ==> (r matches Err(e) && e.err_type
                == ErrorType::ParserError && e.msg@ == "Invalid protocol format"@),
    {
        proof {
            lemma_wire_literals();
        }
        let n = line.unicode_len();
        match find_in(line, "/") {
            None => {
                proof {
                    assert(proto_tokens(line@) == seq![line@]);
                }
                Err(
                    Error {
                        err_type: ErrorType::ParserError,
                        msg: String::from_str("Invalid protocol format"),
                    },
                )
            },
            Some(i) => {
                proof {
                    lemma_find_sub(line@, "/"@);
                }
                let scheme = substr_copy(line, 0, i);
                let rest = line.substring_char(i + 1, n);
                proof {
                    assert(rest@ =~= line@.skip(i + 1));
                }
                let version = match find_in(rest, "/") {
                    None => String::from_str(rest),
                    Some(j) => {
                        proof {
                            lemma_find_sub(rest@, "/"@);
                        }
                        substr_copy(rest, 0, j)
                    },
                };
                proof {
                    let t = proto_tokens(line@);
                    assert(t == seq![line@.subrange(0, i as int)] + split_seq(rest@, slash()));
                    assert(t[0] == line@.subrange(0, i as int));
                    assert(t[1] == split_seq(rest@, slash())[0]);
                    match find_sub(rest@, slash()) {
                        None => {
                            assert(split_seq(rest@, slash()) == seq![rest@]);
                        },
                        Some(j) => {
                            assert(split_seq(rest@, slash())[0] == rest@.subrange(0, j));
                        },
                    }
                    assert(scheme@ == t[0]);
                    assert(version@ == t[1]);
                }
                Ok((scheme, version))
            },
        }
    }

    /// Split the start line on spaces into method token, raw path and
    /// protocol token; resolve the method and the protocol. The method is
    /// checked first, then that all three tokens are present, then the
    /// protocol token's shape.
    fn parse_start_line(line: &str) -> (r: Result<(Method, String, String, String), Error>)
        ensures
            method_of_token(line_tokens(line@)[0]) is None ==> (r matches Err(e) && e.err_type
                == ErrorType::InvalidMethod && e.msg@ == "Invalid or unsupported http method"@),
            method_of_token(line_tokens(line@)[0]) is Some && line_tokens(line@).len() < 3 ==> (
            r matches Err(e) && e.err_type == ErrorType::ParserError && e.msg@
                == "Invalid start line format"@),
            method_of_token(line_tokens(line@)[0]) is Some && line_tokens(line@).len() >= 3
                && proto_tokens(line_tokens(line@)[2]).len() < 2 ==> (r matches Err(e)
                && e.err_type == ErrorType::ParserError && e.msg@ == "Invalid protocol format"@),
            method_of_token(line_tokens(line@)[0]) is Some && line_tokens(line@).len() >= 3
                && proto_tokens(line_tokens(line@)[2]).len() >= 2 ==> (r matches Ok(q) && Some(q.0)
                == method_of_token(line_tokens(line@)[0]) && q.1@ == line_tokens(line@)[1] && q.2@
                == proto_tokens(line_tokens(line@)[2])[0] && q.3@ == proto_tokens(
                line_tokens(line@)[2],
            )[1]),
    {
        proof {
            lemma_wire_literals();
        }
        let n = line.unicode_len();
        let ghost t = line_tokens(line@);
        match find_in(line, " ") {
            None => {
                proof {
                    assert(t == seq![line@]);
                    assert(t[0] == line@);
                }
                match Method::from_string(line) {
                    Ok(_) => Err(
                        Error {
                            err_type: ErrorType::ParserError,
                            msg: String::from_str("Invalid start line format"),
                        },
                    ),
                    Err(e) => Err(e),
                }
            },
            Some(i1) => {
                proof {
                    lemma_find_sub(line@, " "@);
                }
                let tok0 = substr_copy(line, 0, i1);
                let rest1 = line.substring_char(i1 + 1, n);
                proof {
                    assert(rest1@ =~= line@.skip(i1 + 1));
                    assert(t == seq![line@.subrange(0, i1 as int)] + line_tokens(rest1@));
                    assert(t[0] == tok0@);
                }
                let method = match Method::from_string(tok0.as_str()) {
                    Ok(m) => m,
                    Err(e) => {
                        return Err(e);
                    },
                };
                let n1 = rest1.unicode_len();
                match find_in(rest1, " ") {
                    None => {
                        proof {
                            assert(line_tokens(rest1@) == seq![rest1@]);
                            assert(t.len() == 2);
                        }
                        Err(
                            Error {
                                err_type: ErrorType::ParserError,
                                msg: String::from_str("Invalid start line format"),
                            },
                        )
                    },
                    Some(i2) => {
                        proof {
                            lemma_find_sub(rest1@, " "@);
                        }
                        let raw_path = substr_copy(rest1, 0, i2);
                        let rest2 = rest1.substring_char(i2 + 1, n1);
                        proof {
                            assert(rest2@ =~= rest1@.skip(i2 + 1));
                            assert(line_tokens(rest1@) == seq![rest1@.subrange(0, i2 as int)]
                                + line_tokens(rest2@));
                            assert(t[1] == raw_path@);
                            assert(t[2] == line_tokens(rest2@)[0]);
                        }
                        let n2 = rest2.unicode_len();
                        let proto = match find_in(rest2, " ") {
                            None => {
                                proof {
                                    assert(line_tokens(rest2@) == seq![rest2@]);
                                    assert(t.len() == 3);
                                }
                                String::from_str(rest2)
                            },
                            Some(i3) => {
                                proof {
                                    lemma_find_sub(rest2@, " "@);
                                    assert(line_tokens(rest2@) == seq![rest2@.subrange(0, i3 as int)]
                                        + line_tokens(rest2@.skip(i3 + 1)));
                                    assert(t.len() >= 3);
                                }
                                substr_copy(rest2, 0, i3)
                            },
                        };
                        proof {
                            assert(proto@ == t[2]);
                        }
                        match Self::parse_protocol(proto.as_str()) {
                            Ok(p) => Ok((method, raw_path, p.0, p.1)),
                            Err(e) => Err(e),
                        }
                    },
                }
            },
        }
    }
}

} // verus!
