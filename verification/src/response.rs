//! The response side: a builder over status, headers and content, and the
//! renderer back to wire text.

use crate::header::header_render;
use crate::header::headers_view;
use crate::header::Header;
use crate::status::status_render;
use crate::status::Status;
use crate::strutil::dec_str;
use crate::strutil::usize_to_string;
use crate::wire::crlf;
use crate::wire::lemma_wire_literals;
use crate::wire::slash;
use crate::wire::sp;
use vstd::prelude::*;
use vstd::utf8::encode_utf8;

verus! {

/// A response under construction. Every builder call returns a new value
/// with one field changed or one header appended; nothing mutates in place.
#[derive(Debug, Clone, PartialEq)]
pub struct Response {
    pub scheme: String,
    pub version: String,
    pub status: Status,
    pub headers: Vec<Header>,
    pub content: String,
}

/// The byte length of text encoded as UTF-8: the count `Content-Length`
/// carries, computed over the content exactly as supplied.
pub open spec fn byte_len(s: Seq<char>) -> nat {
    encode_utf8(s).len()
}

/// The rendered header block: each header followed by the line terminator,
/// in construction order.
pub open spec fn headers_render(hs: Seq<Header>) -> Seq<char>
    decreases hs.len(),
{
    if hs.len() == 0 {
        Seq::empty()
    } else {
        header_render(hs[0]) + crlf() + headers_render(hs.drop_first())
    }
}

/// Everything rendered before the blank separator line: the status line and
/// the header block.
pub open spec fn response_head(r: Response) -> Seq<char> {
    r.scheme@ + slash() + r.version@ + sp() + status_render(r.status) + crlf() + headers_render(
        r.headers@,
    )
}

/// The full wire rendering: the head, the mandatory blank line, the content.
pub open spec fn response_render(r: Response) -> Seq<char> {
    response_head(r) + crlf() + r.content@
}

impl Response {
    /// A response with no headers and no content: scheme `HTTP`, version
    /// `1.1`, status 200.
    pub fn empty() -> (r: Response)
        ensures
            r.scheme@ == "HTTP"@,
            r.version@ == "1.1"@,
            r.status == Status::Okay,
            r.headers@ == Seq::<Header>::empty(),
            r.content@ == Seq::<char>::empty(),
    {
        let r = Response {
            scheme: String::from_str("HTTP"),
            version: String::from_str("1.1"),
            status: Status::Okay,
            headers: Vec::new(),
            content: String::new(),
        };
        proof {
            assert(r.headers@ =~= Seq::<Header>::empty());
        }
        r
    }

    /// A response with the given body, verbatim, and no headers: neither
    /// `Content-Type` nor `Content-Length` is set.
    pub fn body(content: &str) -> (r: Response)
        ensures
            r.scheme@ == "HTTP"@,
            r.version@ == "1.1"@,
            r.status == Status::Okay,
            r.headers@ == Seq::<Header>::empty(),
            r.content@ == content@,
    {
        let r = Response {
            scheme: String::from_str("HTTP"),
            version: String::from_str("1.1"),
            status: Status::Okay,
            headers: Vec::new(),
            content: String::from_str(content),
        };
        proof {
            assert(r.headers@ =~= Seq::<Header>::empty());
        }
        r
    }

    /// A response with the given body and content type: `Content-Type` is set
    /// to the type provided and `Content-Length` to the byte length of the
    /// content, in that order.
    pub fn content(content: &str, content_type: &str) -> (r: Response)
        ensures
            r.scheme@ == "HTTP"@,
            r.version@ == "1.1"@,
            r.status == Status::Okay,
            headers_view(r.headers@) == seq![
                ("Content-Type"@, content_type@),
                ("Content-Length"@, dec_str(byte_len(content@))),
            ],
            r.content@ == content@,
    {
        let length = content.as_bytes().len();
        let r = Self::body(content).header(Header::new("Content-Type", content_type)).header(
            Header::new("Content-Length", usize_to_string(length).as_str()),
        );
        proof {
            assert(headers_view(r.headers@) =~= seq![
                ("Content-Type"@, content_type@),
                ("Content-Length"@, dec_str(byte_len(content@))),
            ]);
        }
        r
    }

    /// A `text/html` response: `content` with the content type fixed.
    pub fn html(content: &str) -> (r: Response)
        ensures
            r.scheme@ == "HTTP"@,
            r.version@ == "1.1"@,
            r.status == Status::Okay,
            headers_view(r.headers@) == seq![
                ("Content-Type"@, "text/html"@),
                ("Content-Length"@, dec_str(byte_len(content@))),
            ],
            r.content@ == content@,
    {
        Self::content(content, "text/html")
    }

    /// An `application/json` response: `content` with the content type fixed.
    pub fn json(content: &str) -> (r: Response)
        ensures
            r.scheme@ == "HTTP"@,
            r.version@ == "1.1"@,
            r.status == Status::Okay,
            headers_view(r.headers@) == seq![
                ("Content-Type"@, "application/json"@),
                ("Content-Length"@, dec_str(byte_len(content@))),
            ],
            r.content@ == content@,
    {
        Self::content(content, "application/json")
    }

    /// Add a `Set-Cookie` header to the response.
    pub fn cookie(self, content: &str) -> (r: Response)
        ensures
            r.scheme == self.scheme,
            r.version == self.version,
            r.status == self.status,
            r.content == self.content,
            headers_view(r.headers@) == headers_view(self.headers@).push(
                ("Set-Cookie"@, content@),
            ),
    {
        let r = self.header(Header::new("Set-Cookie", content));
        proof {
            assert(headers_view(r.headers@) =~= headers_view(r.headers@.drop_last()).push(
                ("Set-Cookie"@, content@),
            ));
            assert(r.headers@.drop_last() =~= r.headers@.subrange(0, r.headers@.len() - 1));
        }
        r
    }

    /// Replace the status of the response; nothing else changes.
    pub fn status(self, status: Status) -> (r: Response)
        ensures
            r.scheme == self.scheme,
            r.version == self.version,
            r.status == status,
            r.headers == self.headers,
            r.content == self.content,
    {
        Response { status, ..self }
    }

    /// Append a header to the end of the header sequence; a header already
    /// present with the same key is neither removed nor overridden.
    pub fn header(self, header: Header) -> (r: Response)
        ensures
            r.scheme == self.scheme,
            r.version == self.version,
            r.status == self.status,
            r.headers@ == self.headers@.push(header),
            r.content == self.content,
    {
        let mut headers = self.headers;
        headers.push(header);
        Response { headers, ..self }
    }

    /// The plaintext rendering: the status line, each header on its own line,
    /// the blank separator (present even with no headers), the content.
    pub fn to_string(&self) -> (r: String)
        ensures
            r@ == response_render(*self),
    {
        proof {
            lemma_wire_literals();
        }
        let mut out = self.scheme.clone();
        out.append("/");
        out.append(self.version.as_str());
        out.append(" ");
        let status = self.status.to_string();
        out.append(status.as_str());
        out.append("\r\n");
        proof {
            assert(self.headers@.take(0) =~= Seq::<Header>::empty());
            assert(out@ =~= r_head_prefix(*self) + headers_render(self.headers@.take(0)));
        }
        let mut k: usize = 0;
        while k < self.headers.len()
            invariant
                k <= self.headers@.len(),
                out@ == r_head_prefix(*self) + headers_render(self.headers@.take(k as int)),
            decreases self.headers@.len() - k,
        {
            let line = self.headers[k].to_string();
            out.append(line.as_str());
            out.append("\r\n");
            proof {
                lemma_wire_literals();
                lemma_headers_render_push(self.headers@.take(k as int), self.headers@[k as int]);
                assert(self.headers@.take(k + 1) =~= self.headers@.take(k as int).push(
                    self.headers@[k as int],
                ));
                assert(out@ =~= r_head_prefix(*self) + headers_render(self.headers@.take(k + 1)));
            }
            k = k + 1;
        }
        out.append("\r\n");
        out.append(self.content.as_str());
        proof {
            assert(self.headers@.take(self.headers@.len() as int) =~= self.headers@);
            assert(out@ =~= response_render(*self));
        }
        out
    }
}

/// The status line of a response as rendered, up to and including its line
/// terminator.
pub open spec fn r_head_prefix(r: Response) -> Seq<char> {
    r.scheme@ + slash() + r.version@ + sp() + status_render(r.status) + crlf()
}

/// Rendering a header block with one more header appends exactly that
/// header's line; nothing already rendered moves.
pub proof fn lemma_headers_render_push(hs: Seq<Header>, h: Header)
    ensures
        headers_render(hs.push(h)) == headers_render(hs) + header_render(h) + crlf(),
    decreases hs.len(),
{
    if hs.len() == 0 {
        assert(hs.push(h)[0] == h);
        assert(hs.push(h).drop_first() =~= hs);
        assert(headers_render(hs) == Seq::<char>::empty());
        assert(headers_render(hs.push(h)) == header_render(h) + crlf() + headers_render(hs));
        assert(header_render(h) + crlf() + headers_render(hs) =~= headers_render(hs)
            + header_render(h) + crlf());
    } else {
        assert(hs.push(h)[0] == hs[0]);
        assert(hs.push(h).drop_first() =~= hs.drop_first().push(h));
        lemma_headers_render_push(hs.drop_first(), h);
        assert(headers_render(hs.push(h)) == header_render(hs[0]) + crlf() + (headers_render(
            hs.drop_first(),
        ) + header_render(h) + crlf()));
        assert(header_render(hs[0]) + crlf() + (headers_render(hs.drop_first()) + header_render(h)
            + crlf()) =~= (header_render(hs[0]) + crlf() + headers_render(hs.drop_first()))
            + header_render(h) + crlf());
    }
}

/// Law: appending a header never removes or reorders the headers already
/// added. If `after` is `before` with one header `h` appended and nothing
/// else changed, then everything `before` renders ahead of the blank
/// separator line is a strict prefix of what `after` renders there.
pub proof fn lemma_header_append_keeps_prefix(before: Response, after: Response, h: Header)
    requires
        after.scheme@ == before.scheme@,
        after.version@ == before.version@,
        after.status == before.status,
        after.content@ == before.content@,
        after.headers@ == before.headers@.push(h),
    ensures
        response_head(after) == response_head(before) + header_render(h) + crlf(),
        response_head(before).len() < response_head(after).len(),
        response_head(before) == response_head(after).take(response_head(before).len() as int),
{
    lemma_headers_render_push(before.headers@, h);
    assert(response_head(after) =~= response_head(before) + header_render(h) + crlf());
    assert(response_head(before) =~= response_head(after).take(
        response_head(before).len() as int,
    ));
}

} // verus!
