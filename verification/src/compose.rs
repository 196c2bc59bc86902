//! The response composer: from the way a request ended to what the client is
//! sent and what the operator is told.
//!
//! The two are kept apart. The client sees a status and a body that depend on
//! the category of the error and on nothing that the server learnt while it
//! failed. The operator gets the category for the audit log and the error with
//! all its detail.

use crate::auth::{PasswordError, PasswordErrorView};
use crate::decrypt::Exit;
use crate::response::{Response, ResponseView};
use vstd::prelude::*;
use vstd::string::StringExecFns;

verus! {

/// The body that answers a request whose resource could not be decrypted.
pub const DECRYPTION_FAILED_TEXT: &'static str = "decryption failed";

/// The body that answers a request on which the gateway itself failed.
pub const INTERNAL_TEXT: &'static str = "internal error";

/// What the operator is told of a resource that is not available.
pub const UNAVAILABLE_DETAIL: &'static str = "resource unavailable";

/// What the operator's account of a failed decryption starts with; the
/// diagnostic of the program follows.
pub const FAILED_DETAIL: &'static str = "OpenSSL command failed: ";

/// How a request ended, as the audit log names it.
#[derive(Clone, Copy, Debug, PartialEq, Eq, Structural)]
pub enum Category {
    Served,
    MissingCredential,
    InvalidCredentialFormat,
    ResourceUnavailable,
    DecryptionFailed,
    InternalUnexpected,
}

/// Why a request was not served.
#[derive(Debug, PartialEq, Eq)]
pub enum GatewayError {
    /// The request carries no credential.
    MissingCredential,
    /// The request carries a header from which no credential can be taken.
    InvalidCredentialFormat(&'static str),
    /// The resource does not exist or lies outside the root; which of the two
    /// is not recorded.
    ResourceUnavailable,
    /// The decryption program ran and did not succeed.
    DecryptionFailed { exit: Exit, diagnostic: String },
    /// The decryption program could not be run.
    InternalUnexpected { diagnostic: String },
}

/// What a [`GatewayError`] holds, as mathematical values.
pub enum GatewayErrorView {
    MissingCredential,
    InvalidCredentialFormat(Seq<char>),
    ResourceUnavailable,
    DecryptionFailed { exit: Exit, diagnostic: Seq<char> },
    InternalUnexpected { diagnostic: Seq<char> },
}

impl View for GatewayError {
    type V = GatewayErrorView;

    open spec fn view(&self) -> GatewayErrorView {
        match self {
            GatewayError::MissingCredential => GatewayErrorView::MissingCredential,
            GatewayError::InvalidCredentialFormat(reason) => {
                GatewayErrorView::InvalidCredentialFormat(reason@)
            },
            GatewayError::ResourceUnavailable => GatewayErrorView::ResourceUnavailable,
            GatewayError::DecryptionFailed { exit, diagnostic } => {
                GatewayErrorView::DecryptionFailed { exit: *exit, diagnostic: diagnostic@ }
            },
            GatewayError::InternalUnexpected { diagnostic } => {
                GatewayErrorView::InternalUnexpected { diagnostic: diagnostic@ }
            },
        }
    }
}

impl GatewayErrorView {
    /// The error that a failed extraction of the credential amounts to.
    pub open spec fn of_password_error(error: PasswordErrorView) -> GatewayErrorView {
        match error {
            PasswordErrorView::Missing => GatewayErrorView::MissingCredential,
            PasswordErrorView::Invalid(reason) => GatewayErrorView::InvalidCredentialFormat(reason),
        }
    }

    /// The error that a failed decryption amounts to: the gateway's own where
    /// the program never ran, the program's otherwise.
    pub open spec fn of_failure(exit: Exit, diagnostic: Seq<char>) -> GatewayErrorView {
        match exit {
            Exit::NotStarted => GatewayErrorView::InternalUnexpected { diagnostic },
            _ => GatewayErrorView::DecryptionFailed { exit, diagnostic },
        }
    }

    /// The category of the error.
    pub open spec fn category(self) -> Category {
        match self {
            GatewayErrorView::MissingCredential => Category::MissingCredential,
            GatewayErrorView::InvalidCredentialFormat(_) => Category::InvalidCredentialFormat,
            GatewayErrorView::ResourceUnavailable => Category::ResourceUnavailable,
            GatewayErrorView::DecryptionFailed { .. } => Category::DecryptionFailed,
            GatewayErrorView::InternalUnexpected { .. } => Category::InternalUnexpected,
        }
    }

    /// The HTTP status that answers the error.
    pub open spec fn status(self) -> u16 {
        match self {
            GatewayErrorView::MissingCredential => 401,
            GatewayErrorView::InvalidCredentialFormat(_) => 400,
            GatewayErrorView::ResourceUnavailable => 404,
            GatewayErrorView::DecryptionFailed { .. } => 500,
            GatewayErrorView::InternalUnexpected { .. } => 500,
        }
    }

    /// The response that answers the error.
    pub open spec fn response(self) -> ResponseView {
        match self {
            GatewayErrorView::MissingCredential => PasswordErrorView::Missing.error_response(),
            GatewayErrorView::InvalidCredentialFormat(reason) => PasswordErrorView::Invalid(
                reason,
            ).error_response(),
            GatewayErrorView::ResourceUnavailable => ResponseView::bare(404),
            GatewayErrorView::DecryptionFailed { .. } => ResponseView::text(
                500,
                DECRYPTION_FAILED_TEXT@,
            ),
            GatewayErrorView::InternalUnexpected { .. } => ResponseView::text(500, INTERNAL_TEXT@),
        }
    }

    /// What the operator is told of the error.
    pub open spec fn detail(self) -> Seq<char> {
        match self {
            GatewayErrorView::MissingCredential => PasswordErrorView::Missing.message(),
            GatewayErrorView::InvalidCredentialFormat(reason) => PasswordErrorView::Invalid(
                reason,
            ).message(),
            GatewayErrorView::ResourceUnavailable => UNAVAILABLE_DETAIL@,
            GatewayErrorView::DecryptionFailed { diagnostic, .. } => FAILED_DETAIL@ + diagnostic,
            GatewayErrorView::InternalUnexpected { diagnostic } => diagnostic,
        }
    }
}

impl GatewayError {
    /// The error that a failed extraction of the credential amounts to.
    pub fn from_password_error(error: PasswordError) -> (converted: GatewayError)
        ensures
            converted@ == GatewayErrorView::of_password_error(error@),
    {
        match error {
            PasswordError::Missing => GatewayError::MissingCredential,
            PasswordError::Invalid(reason) => GatewayError::InvalidCredentialFormat(reason),
        }
    }

    /// The error that a failed decryption amounts to: the gateway's own where
    /// the program never ran, the program's otherwise.
    pub fn from_failure(exit: Exit, diagnostic: String) -> (converted: GatewayError)
        ensures
            converted@ == GatewayErrorView::of_failure(exit, diagnostic@),
    {
        match exit {
            Exit::NotStarted => GatewayError::InternalUnexpected { diagnostic },
            _ => GatewayError::DecryptionFailed { exit, diagnostic },
        }
    }

    /// The category of the error.
    pub fn category(&self) -> (category: Category)
        ensures
            category == self@.category(),
    {
        match self {
            GatewayError::MissingCredential => Category::MissingCredential,
            GatewayError::InvalidCredentialFormat(_) => Category::InvalidCredentialFormat,
            GatewayError::ResourceUnavailable => Category::ResourceUnavailable,
            GatewayError::DecryptionFailed { .. } => Category::DecryptionFailed,
            GatewayError::InternalUnexpected { .. } => Category::InternalUnexpected,
        }
    }

    /// The HTTP status that answers the error. It is the status of
    /// [`GatewayError::response`].
    pub fn status(&self) -> (status: u16)
        ensures
            status == self@.status(),
            status == self@.response().status,
    {
        match self {
            GatewayError::MissingCredential => 401,
            GatewayError::InvalidCredentialFormat(_) => 400,
            GatewayError::ResourceUnavailable => 404,
            GatewayError::DecryptionFailed { .. } => 500,
            GatewayError::InternalUnexpected { .. } => 500,
        }
    }

    /// The response that answers the error.
    ///
    /// A missing or unusable credential is answered as the extractor says. An
    /// unavailable resource is answered by a bare 404. A failed decryption and
    /// a failure of the gateway are answered by 500 and a fixed sentence each;
    /// the diagnostic stays behind.
    pub fn response(&self) -> (resp: Response)
        ensures
            resp@ == self@.response(),
    {
        match self {
            GatewayError::MissingCredential => PasswordError::Missing.error_response(),
            GatewayError::InvalidCredentialFormat(reason) => PasswordError::Invalid(
                reason,
            ).error_response(),
            GatewayError::ResourceUnavailable => Response::new(404),
            GatewayError::DecryptionFailed { .. } => Response::text(500, DECRYPTION_FAILED_TEXT),
            GatewayError::InternalUnexpected { .. } => Response::text(500, INTERNAL_TEXT),
        }
    }

    /// What the operator is told of the error, with every detail that the
    /// error holds.
    pub fn detail(&self) -> (text: String)
        ensures
            text@ == self@.detail(),
    {
        match self {
            GatewayError::MissingCredential => PasswordError::Missing.message(),
            GatewayError::InvalidCredentialFormat(reason) => PasswordError::Invalid(
                reason,
            ).message(),
            GatewayError::ResourceUnavailable => UNAVAILABLE_DETAIL.to_owned(),
            GatewayError::DecryptionFailed { diagnostic, .. } => {
                let mut text = FAILED_DETAIL.to_owned();
                text.append(diagnostic.as_str());
                text
            },
            GatewayError::InternalUnexpected { diagnostic } => diagnostic.clone(),
        }
    }
}

/// The entry that the audit log gets for one request.
#[derive(Debug, PartialEq, Eq)]
pub struct Audit {
    pub method: String,
    pub path: String,
    pub outcome: Category,
}

/// What an [`Audit`] holds, as mathematical values.
pub struct AuditView {
    pub method: Seq<char>,
    pub path: Seq<char>,
    pub outcome: Category,
}

impl View for Audit {
    type V = AuditView;

    open spec fn view(&self) -> AuditView {
        AuditView { method: self.method@, path: self.path@, outcome: self.outcome }
    }
}

/// All that follows from the end of a request: the response for the client,
/// the entry for the audit log and, where the request failed, the error for
/// the operator's log.
#[derive(Debug, PartialEq, Eq)]
pub struct Reply {
    pub response: Response,
    pub audit: Audit,
    pub error: Option<GatewayError>,
}

/// What a [`Reply`] holds, as mathematical values.
pub struct ReplyView {
    pub response: ResponseView,
    pub audit: AuditView,
    pub error: Option<GatewayErrorView>,
}

impl View for Reply {
    type V = ReplyView;

    open spec fn view(&self) -> ReplyView {
        ReplyView {
            response: self.response@,
            audit: self.audit@,
            error: match self.error {
                Some(error) => Some(error@),
                None => None,
            },
        }
    }
}

/// What the end of a request holds, as mathematical values.
pub open spec fn result_view(result: Result<Vec<u8>, GatewayError>) -> Result<
    Seq<u8>,
    GatewayErrorView,
> {
    match result {
        Ok(plain) => Ok(plain@),
        Err(error) => Err(error@),
    }
}

/// The reply to a request for `path` by `method` that ended in `result`: the
/// decrypted bytes, or the error that kept them back.
pub open spec fn composed(
    method: Seq<char>,
    path: Seq<char>,
    result: Result<Seq<u8>, GatewayErrorView>,
) -> ReplyView {
    match result {
        Ok(plain) => ReplyView {
            response: ResponseView::bytes(200, plain),
            audit: AuditView { method, path, outcome: Category::Served },
            error: None,
        },
        Err(error) => ReplyView {
            response: error.response(),
            audit: AuditView { method, path, outcome: error.category() },
            error: Some(error),
        },
    }
}

impl Reply {
    /// Composes the reply to a request for `path` by `method` that ended in
    /// `result`.
    ///
    /// Decrypted bytes are sent as they are, with status 200 and no header. An
    /// error is answered by its own response, named by its category in the
    /// audit entry and handed on whole for the operator's log.
    pub fn compose(method: String, path: String, result: Result<Vec<u8>, GatewayError>) -> (reply:
        Reply)
        ensures
            reply@ == composed(method@, path@, result_view(result)),
    {
        match result {
            Ok(plain) => Reply {
                response: Response::bytes(200, plain),
                audit: Audit { method, path, outcome: Category::Served },
                error: None,
            },
            Err(error) => Reply {
                response: error.response(),
                audit: Audit { method, path, outcome: error.category() },
                error: Some(error),
            },
        }
    }
}

/// Every reply carries one of five statuses, and the status goes with the
/// category that the audit entry names. An error is handed on exactly where
/// the request was not served.
pub proof fn lemma_status_goes_with_category(
    method: Seq<char>,
    path: Seq<char>,
    result: Result<Seq<u8>, GatewayErrorView>,
)
    ensures
        composed(method, path, result).response.status == match composed(
            method,
            path,
            result,
        ).audit.outcome {
            Category::Served => 200u16,
            Category::MissingCredential => 401u16,
            Category::InvalidCredentialFormat => 400u16,
            Category::ResourceUnavailable => 404u16,
            Category::DecryptionFailed => 500u16,
            Category::InternalUnexpected => 500u16,
        },
        composed(method, path, result).error is None <==> composed(
            method,
            path,
            result,
        ).audit.outcome == Category::Served,
        composed(method, path, result).audit.method == method,
        composed(method, path, result).audit.path == path,
{
}

/// What the client is sent for an error depends on its category and, for an
/// unusable credential, on the reason; the diagnostic of a failed decryption
/// takes no part in it.
pub proof fn lemma_response_keeps_the_diagnostic_back(
    first: GatewayErrorView,
    second: GatewayErrorView,
)
    requires
        first.category() == second.category(),
        first is InvalidCredentialFormat ==> first == second,
    ensures
        first.response() == second.response(),
{
}

} // verus!
