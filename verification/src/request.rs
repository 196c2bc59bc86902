//! What the gateway reads of an incoming request.

use vstd::prelude::*;

verus! {

/// One request, reduced to what the gateway decides on.
#[derive(Debug, PartialEq, Eq)]
pub struct Request {
    /// The request method, as it was sent.
    pub method: String,
    /// The raw resource path: whatever followed the first `/` of the URL.
    pub path: String,
    /// The bytes of the first `Authorization` header, if there is one.
    pub authorization: Option<Vec<u8>>,
}

/// What a [`Request`] holds, as mathematical values.
pub struct RequestView {
    pub method: Seq<char>,
    pub path: Seq<char>,
    pub authorization: Option<Seq<u8>>,
}

impl View for Request {
    type V = RequestView;

    open spec fn view(&self) -> RequestView {
        RequestView {
            method: self.method@,
            path: self.path@,
            authorization: match self.authorization {
                Some(value) => Some(value@),
                None => None,
            },
        }
    }
}

} // verus!
