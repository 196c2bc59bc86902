//! The credential extractor: from the `Authorization` header to the opaque
//! token that serves as key material.
//!
//! The header is framed as `Basic <token>`. Only the framing is borrowed from
//! HTTP Basic authentication: the token is neither decoded nor split into a
//! user and a password. Everything after the first space is the credential.

use crate::request::Request;
use crate::response::{Response, ResponseView};
use actix_web::http::header::HeaderValue;
use vstd::prelude::*;
use vstd::string::{StrSliceExecFns, StringExecFns};

verus! {

/// The reason given where the header holds a byte that is not text.
pub const NOT_TEXT: &'static str = "Authorization header is not valid UTF-8";

/// The reason given where no space parts a scheme from a token.
pub const NO_SEPARATOR: &'static str = "Authorization header has invalid format";

/// The reason given where the scheme is not `Basic`.
pub const NOT_BASIC: &'static str = "not using Basic authorization scheme";

/// The body that answers a request without a credential.
pub const MISSING_TEXT: &'static str = "authorization is required to access this resource";

/// What the body that answers an unusable header starts with; the quoted
/// reason follows.
pub const INVALID_TEXT: &'static str =
    "authorization was invalid. make sure to use Basic scheme with valid base64 data. reason: ";

/// The name of the header that asks the client for a credential.
pub const CHALLENGE: &'static str = "www-authenticate";

/// The scheme that the challenge advertises.
pub const CHALLENGE_BASIC: &'static str = "Basic charset=\"UTF-8\"";

/// The credential of one request: the token that followed the scheme, verbatim.
pub struct Password(pub String);

/// Why no credential could be taken from a request.
#[derive(Debug, PartialEq, Eq)]
pub enum PasswordError {
    /// The request carries no `Authorization` header.
    Missing,
    /// The header is there but cannot be used; the text names the category.
    Invalid(&'static str),
}

/// What a [`PasswordError`] holds, as mathematical values.
pub enum PasswordErrorView {
    Missing,
    Invalid(Seq<char>),
}

impl View for PasswordError {
    type V = PasswordErrorView;

    open spec fn view(&self) -> PasswordErrorView {
        match self {
            PasswordError::Missing => PasswordErrorView::Missing,
            PasswordError::Invalid(reason) => PasswordErrorView::Invalid(reason@),
        }
    }
}

impl View for Password {
    type V = Seq<char>;

    open spec fn view(&self) -> Seq<char> {
        self.0@
    }
}

/// The ways in which the extraction can fail.
pub enum Rejection {
    /// There is no header.
    Missing,
    /// The header holds a byte that is not text.
    NotText,
    /// The header holds no space.
    NoSeparator,
    /// The scheme before the first space is not `Basic`.
    NotBasic,
}

/// Whether a header value may be read as text with this byte in it: a space,
/// a tab or a visible ASCII character.
pub open spec fn is_text_byte(b: u8) -> bool {
    (32 <= b && b < 127) || b == 9
}

/// Whether a header value is text throughout.
pub open spec fn is_header_text(value: Seq<u8>) -> bool {
    forall|i: int| 0 <= i < value.len() ==> is_text_byte(#[trigger] value[i])
}

/// The characters that ASCII bytes stand for.
pub open spec fn as_text(value: Seq<u8>) -> Seq<char> {
    Seq::new(value.len(), |i: int| value[i] as char)
}

/// An ASCII capital as its small letter, any other byte unchanged.
pub open spec fn folded(b: u8) -> u8 {
    if 65 <= b && b <= 90 {
        (b + 32) as u8
    } else {
        b
    }
}

/// Whether a scheme reads `basic`, in whatever case: five bytes that fold to
/// `b`, `a`, `s`, `i` and `c`.
pub open spec fn is_basic(scheme: Seq<u8>) -> bool {
    &&& scheme.len() == 5
    &&& folded(scheme[0]) == 98
    &&& folded(scheme[1]) == 97
    &&& folded(scheme[2]) == 115
    &&& folded(scheme[3]) == 105
    &&& folded(scheme[4]) == 99
}

/// The credential that a request with this `Authorization` header presents,
/// or the reason why it presents none.
///
/// The checks come in a fixed order: presence, text, separator, scheme.
pub open spec fn extract(header: Option<Seq<u8>>) -> Result<Seq<char>, Rejection> {
    match header {
        None => Err(Rejection::Missing),
        Some(value) => if !is_header_text(value) {
            Err(Rejection::NotText)
        } else {
            match value.index_of_first(32u8) {
                None => Err(Rejection::NoSeparator),
                Some(at) => if !is_basic(value.subrange(0, at)) {
                    Err(Rejection::NotBasic)
                } else {
                    Ok(as_text(value.subrange(at + 1, value.len() as int)))
                },
            }
        },
    }
}

impl Rejection {
    /// The error that reports this rejection.
    pub open spec fn error(self) -> PasswordErrorView {
        match self {
            Rejection::Missing => PasswordErrorView::Missing,
            Rejection::NotText => PasswordErrorView::Invalid(NOT_TEXT@),
            Rejection::NoSeparator => PasswordErrorView::Invalid(NO_SEPARATOR@),
            Rejection::NotBasic => PasswordErrorView::Invalid(NOT_BASIC@),
        }
    }
}

/// Reads a header value as text.
///
/// Calls `HeaderValue::from_bytes` and then `HeaderValue::to_str`. The first
/// refuses control bytes other than the tab, the second refuses bytes from 128
/// on; so text comes back exactly where every byte is a space, a tab or visible
/// ASCII, and it then holds one character for each byte.
#[verifier::external_body]
fn header_text(value: &[u8]) -> (text: Option<String>)
    ensures
        text is Some <==> is_header_text(value@),
        text matches Some(s) ==> s@ == as_text(value@),
{
    match HeaderValue::from_bytes(value) {
        Ok(header) => match header.to_str() {
            Ok(text) => Some(text.to_owned()),
            Err(_) => None,
        },
        Err(_) => None,
    }
}

/// What `{:?}` writes for a string: the string between double quotes, with the
/// characters escaped that cannot stand there as they are.
pub uninterp spec fn debug_text(text: Seq<char>) -> Seq<char>;

/// Formats a string with `{:?}`, as `std::fmt::Debug` for `str` writes it.
#[verifier::external_body]
fn debug_string(text: &str) -> (quoted: String)
    ensures
        quoted@ == debug_text(text@),
{
    format!("{:?}", text)
}

/// The index of the first space in `value`, if it has one.
fn first_space(value: &[u8]) -> (at: Option<usize>)
    ensures
        match at {
            Some(i) => value@.index_of_first(32u8) == Some(i as int) && i < value@.len(),
            None => value@.index_of_first(32u8) is None,
        },
{
    let mut i: usize = 0;
    while i < value.len()
        invariant
            i <= value@.len(),
            forall|j: int| 0 <= j < i ==> value@[j] != 32u8,
        decreases value@.len() - i,
    {
        if value[i] == 32u8 {
            proof {
                value@.index_of_first_ensures(32u8);
            }
            return Some(i);
        }
        i = i + 1;
    }
    proof {
        value@.index_of_first_ensures(32u8);
    }
    None
}

/// An ASCII capital as its small letter, any other byte unchanged.
fn fold(b: u8) -> (small: u8)
    ensures
        small == folded(b),
{
    if 65 <= b && b <= 90 {
        b + 32
    } else {
        b
    }
}

/// Whether the bytes before index `end` read `basic`, in whatever case.
fn scheme_is_basic(value: &[u8], end: usize) -> (basic: bool)
    requires
        end <= value@.len(),
    ensures
        basic == is_basic(value@.subrange(0, end as int)),
{
    end == 5 && fold(value[0]) == 98 && fold(value[1]) == 97 && fold(value[2]) == 115 && fold(
        value[3],
    ) == 105 && fold(value[4]) == 99
}

impl Password {
    /// Takes the credential from a request.
    ///
    /// Succeeds exactly where the `Authorization` header is present, is text,
    /// holds a space and names the scheme `Basic` before it, in whatever case.
    /// The credential is then all that follows the first space, unchanged. Each
    /// failure is reported by its own error.
    pub fn from_request(req: &Request) -> (res: Result<Password, PasswordError>)
        ensures
            match extract(req@.authorization) {
                Ok(token) => res matches Ok(password) && password@ == token,
                Err(rejection) => res matches Err(error) && error@ == rejection.error(),
            },
    {
        let value = match &req.authorization {
            Some(value) => value.as_slice(),
            None => {
                return Err(PasswordError::Missing);
            },
        };
        let text = match header_text(value) {
            Some(text) => text,
            None => {
                return Err(PasswordError::Invalid(NOT_TEXT));
            },
        };
        let at = match first_space(value) {
            Some(at) => at,
            None => {
                return Err(PasswordError::Invalid(NO_SEPARATOR));
            },
        };
        if !scheme_is_basic(value, at) {
            return Err(PasswordError::Invalid(NOT_BASIC));
        }
        let text = text.as_str();
        assert(vstd::string::is_ascii(text)) by {
            assert forall|i: int| 0 <= i < text@.len() implies '\0' <= #[trigger] text@[i]
                <= '\u{7f}' by {
                assert(is_text_byte(value@[i]));
            }
        }
        let token = text.substring_ascii(at + 1, value.len());
        assert(token@ =~= as_text(value@.subrange(at + 1, value@.len() as int)));
        Ok(Password(token.to_owned()))
    }
}

impl PasswordErrorView {
    /// The HTTP status that answers this error.
    pub open spec fn status_code(self) -> u16 {
        match self {
            PasswordErrorView::Missing => 401,
            PasswordErrorView::Invalid(_) => 400,
        }
    }

    /// The text that tells the client what was wrong.
    pub open spec fn message(self) -> Seq<char> {
        match self {
            PasswordErrorView::Missing => MISSING_TEXT@,
            PasswordErrorView::Invalid(reason) => INVALID_TEXT@ + debug_text(reason),
        }
    }

    /// The response that answers this error.
    pub open spec fn error_response(self) -> ResponseView {
        let plain = ResponseView::text(self.status_code(), self.message());
        match self {
            PasswordErrorView::Missing => plain.with_header(CHALLENGE@, CHALLENGE_BASIC@),
            PasswordErrorView::Invalid(_) => plain,
        }
    }
}

/// The text that answers an unusable header, given the reason in quotes.
pub fn invalid_message(quoted: &str) -> (text: String)
    ensures
        text@ == INVALID_TEXT@ + quoted@,
{
    let mut text = INVALID_TEXT.to_owned();
    text.append(quoted);
    text
}

impl PasswordError {
    /// The text that tells the client what was wrong: a fixed sentence where the
    /// header is missing, else a fixed sentence and the quoted reason. No byte
    /// of the header itself goes into it.
    pub fn message(&self) -> (text: String)
        ensures
            text@ == self@.message(),
    {
        match self {
            PasswordError::Missing => MISSING_TEXT.to_owned(),
            PasswordError::Invalid(reason) => {
                let quoted = debug_string(reason);
                invalid_message(quoted.as_str())
            },
        }
    }

    /// The HTTP status that answers this error: 401 where the header is
    /// missing, 400 where it is unusable.
    pub fn status_code(&self) -> (code: u16)
        ensures
            code == self@.status_code(),
    {
        match self {
            PasswordError::Missing => 401,
            PasswordError::Invalid(_) => 400,
        }
    }

    /// The response that answers this error: its status, its message as a
    /// plain-text body and, where the header is missing, the challenge that
    /// advertises the `Basic` scheme.
    pub fn error_response(&self) -> (resp: Response)
        ensures
            resp@ == self@.error_response(),
    {
        let text = self.message();
        let plain = Response::text(self.status_code(), text.as_str());
        match self {
            PasswordError::Missing => plain.with_header(CHALLENGE, CHALLENGE_BASIC),
            PasswordError::Invalid(_) => plain,
        }
    }
}

/// A header that is framed as it should be yields its token: where a scheme
/// that reads `Basic` is followed by a space and by a token that is text, the
/// credential is the token, character for character.
pub proof fn lemma_framed_token_is_extracted(scheme: Seq<u8>, token: Seq<u8>)
    requires
        is_basic(scheme),
        is_header_text(token),
    ensures
        extract(Some(scheme + seq![32u8] + token)) == Ok::<Seq<char>, Rejection>(as_text(token)),
{
    let value = scheme + seq![32u8] + token;
    value.index_of_first_ensures(32u8);
    assert(value[5] == 32u8);
    assert(value.subrange(0, 5) =~= scheme);
    assert(value.subrange(6, value.len() as int) =~= token);
    assert forall|i: int| 0 <= i < value.len() implies is_text_byte(#[trigger] value[i]) by {
        if i > 5 {
            assert(value[i] == token[i - 6]);
        }
    }
}

} // verus!
