//! HTTP responses as plain values: a status, headers in the order in which they
//! were added, and the body's bytes.

use vstd::prelude::*;
use vstd::string::StrSliceExecFns;
use vstd::utf8::encode_utf8;

verus! {

/// The name of the header that says what a body holds.
pub const CONTENT_TYPE: &'static str = "content-type";

/// The content type of every textual body.
pub const PLAIN_TEXT: &'static str = "text/plain; charset=utf-8";

/// A response, ready to be written out.
#[derive(Debug, PartialEq, Eq)]
pub struct Response {
    pub status: u16,
    pub headers: Vec<(String, String)>,
    pub body: Vec<u8>,
}

/// What a [`Response`] holds, as mathematical values.
pub struct ResponseView {
    pub status: u16,
    pub headers: Seq<(Seq<char>, Seq<char>)>,
    pub body: Seq<u8>,
}

/// The headers of a response, each name and value as a sequence of characters.
pub open spec fn headers_view(headers: Seq<(String, String)>) -> Seq<(Seq<char>, Seq<char>)> {
    Seq::new(headers.len(), |i: int| (headers[i].0@, headers[i].1@))
}

impl View for Response {
    type V = ResponseView;

    open spec fn view(&self) -> ResponseView {
        ResponseView { status: self.status, headers: headers_view(self.headers@), body: self.body@ }
    }
}

impl ResponseView {
    /// The response with nothing but a status.
    pub open spec fn bare(status: u16) -> ResponseView {
        ResponseView { status, headers: Seq::empty(), body: Seq::empty() }
    }

    /// The response that carries `text` as its body and declares it plain text.
    pub open spec fn text(status: u16, text: Seq<char>) -> ResponseView {
        ResponseView {
            status,
            headers: seq![(CONTENT_TYPE@, PLAIN_TEXT@)],
            body: encode_utf8(text),
        }
    }

    /// The response that carries `body` as it is, with no header to describe it.
    pub open spec fn bytes(status: u16, body: Seq<u8>) -> ResponseView {
        ResponseView { status, headers: Seq::empty(), body }
    }

    /// This response with one more header, after those it has.
    pub open spec fn with_header(self, name: Seq<char>, value: Seq<char>) -> ResponseView {
        ResponseView { headers: self.headers.push((name, value)), ..self }
    }

    /// Whether the response has a header of this name and value.
    pub open spec fn has_header(self, name: Seq<char>, value: Seq<char>) -> bool {
        self.headers.contains((name, value))
    }
}

impl Response {
    /// A response with nothing but a status.
    pub fn new(status: u16) -> (resp: Response)
        ensures
            resp@ == ResponseView::bare(status),
    {
        let resp = Response { status, headers: Vec::new(), body: Vec::new() };
        assert(resp@.headers =~= Seq::empty());
        resp
    }

    /// A response whose body is `text`, declared as plain text.
    pub fn text(status: u16, text: &str) -> (resp: Response)
        ensures
            resp@ == ResponseView::text(status, text@),
    {
        let mut headers: Vec<(String, String)> = Vec::new();
        headers.push((CONTENT_TYPE.to_owned(), PLAIN_TEXT.to_owned()));
        let resp = Response { status, headers, body: text.as_bytes_vec() };
        assert(resp@.headers =~= seq![(CONTENT_TYPE@, PLAIN_TEXT@)]);
        resp
    }

    /// A response whose body is `body`, byte for byte, with no header.
    pub fn bytes(status: u16, body: Vec<u8>) -> (resp: Response)
        ensures
            resp@ == ResponseView::bytes(status, body@),
    {
        let resp = Response { status, headers: Vec::new(), body };
        assert(resp@.headers =~= Seq::empty());
        resp
    }

    /// Adds one header after those that the response has.
    pub fn with_header(self, name: &str, value: &str) -> (resp: Response)
        ensures
            resp@ == self@.with_header(name@, value@),
    {
        let mut resp = self;
        resp.headers.push((name.to_owned(), value.to_owned()));
        assert(resp@.headers =~= self@.headers.push((name@, value@)));
        resp
    }
}

} // verus!
