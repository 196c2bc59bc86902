//! One request from its arrival to its reply.
//!
//! A request passes three decisions, in this order: is there a credential, is
//! the resource inside the root, did the decryption succeed. Between them the
//! caller does the work that needs the outside world: it resolves the raw path
//! on the filesystem, and it runs the decryption command. Each decision is a
//! function that either ends the request with a [`Reply`] or hands out what the
//! next one needs. The values handed out cannot be made in any other way, so a
//! command exists only for a request that passed both checks.

use crate::auth::{
    extract, is_basic, is_header_text, Password, Rejection, CHALLENGE, CHALLENGE_BASIC,
    MISSING_TEXT,
};
use crate::compose::{
    composed, GatewayError, GatewayErrorView, Reply, ReplyView, DECRYPTION_FAILED_TEXT,
    FAILED_DETAIL,
};
use crate::decrypt::{
    decryption, diagnostic_text, outcome_of_exit, DecryptionOutcome, Invocation, InvocationView,
    OutcomeView,
};
use crate::path::{contained, safe_path, ResourcePath};
use crate::request::{Request, RequestView};
use crate::response::ResponseView;
use vstd::prelude::*;
use vstd::utf8::encode_utf8;

verus! {

/// A request that presented a credential and waits for its path to be
/// resolved.
pub struct Admitted {
    method: String,
    path: String,
    password: Password,
}

/// What an [`Admitted`] request holds, as mathematical values.
pub struct AdmittedView {
    pub method: Seq<char>,
    pub path: Seq<char>,
    pub password: Seq<char>,
}

impl View for Admitted {
    type V = AdmittedView;

    closed spec fn view(&self) -> AdmittedView {
        AdmittedView { method: self.method@, path: self.path@, password: self.password@ }
    }
}

/// A request whose decryption command was handed out and has not ended yet.
#[derive(Debug)]
pub struct Running {
    method: String,
    path: String,
}

/// What a [`Running`] request holds, as mathematical values.
pub struct RunningView {
    pub method: Seq<char>,
    pub path: Seq<char>,
}

impl View for Running {
    type V = RunningView;

    closed spec fn view(&self) -> RunningView {
        RunningView { method: self.method@, path: self.path@ }
    }
}

/// The bytes of a resolved path, if there are any, as a sequence.
pub open spec fn resolved_view(resolved: Option<&[u8]>) -> Option<Seq<u8>> {
    match resolved {
        Some(text) => Some(text@),
        None => None,
    }
}

/// Whether the resource of a request is available: its path was resolved, the
/// resolved path exists, and it lies below the root.
pub open spec fn available(resolved: Option<Seq<u8>>, exists: bool, root: Seq<u8>) -> bool {
    resolved matches Some(text) && exists && contained(text, root)
}

/// The first decision: a request with a usable credential is admitted, any
/// other is answered at once.
pub open spec fn admission(request: RequestView) -> Result<AdmittedView, ReplyView> {
    match extract(request.authorization) {
        Ok(token) => Ok(
            AdmittedView { method: request.method, path: request.path, password: token },
        ),
        Err(rejection) => Err(
            composed(
                request.method,
                request.path,
                Err(GatewayErrorView::of_password_error(rejection.error())),
            ),
        ),
    }
}

/// The second decision: for an available resource the command that decrypts
/// it with the request's credential, for any other the reply that no such
/// resource exists.
pub open spec fn resolution(
    admitted: AdmittedView,
    resolved: Option<Seq<u8>>,
    exists: bool,
    root: Seq<u8>,
) -> Result<(RunningView, InvocationView), ReplyView> {
    if available(resolved, exists, root) {
        Ok(
            (
                RunningView { method: admitted.method, path: admitted.path },
                decryption(resolved->0, admitted.password),
            ),
        )
    } else {
        Err(composed(admitted.method, admitted.path, Err(GatewayErrorView::ResourceUnavailable)))
    }
}

/// The third decision: the reply that the end of the decryption calls for.
pub open spec fn completion(running: RunningView, outcome: OutcomeView) -> ReplyView {
    match outcome {
        OutcomeView::Success(plain) => composed(running.method, running.path, Ok(plain)),
        OutcomeView::Failure { exit, diagnostic } => composed(
            running.method,
            running.path,
            Err(GatewayErrorView::of_failure(exit, diagnostic)),
        ),
    }
}

/// Takes up a request.
///
/// The request is admitted exactly where a credential can be taken from it;
/// the admitted request keeps its method, its path and that credential. A
/// request without a usable credential is answered here, and nothing else is
/// looked at.
pub fn begin(request: Request) -> (res: Result<Admitted, Reply>)
    ensures
        match admission(request@) {
            Ok(admitted) => res matches Ok(a) && a@ == admitted,
            Err(reply) => res matches Err(r) && r@ == reply,
        },
{
    match Password::from_request(&request) {
        Ok(password) => Ok(Admitted { method: request.method, path: request.path, password }),
        Err(error) => Err(
            Reply::compose(
                request.method,
                request.path,
                Err(GatewayError::from_password_error(error)),
            ),
        ),
    }
}

impl Admitted {
    /// The raw path of the request, which the caller is to resolve.
    pub fn path(&self) -> (path: &str)
        ensures
            path@ == self@.path,
    {
        self.path.as_str()
    }

    /// Goes on with what resolving the path gave.
    ///
    /// `resolved` holds the bytes of the canonical form of the path, or nothing
    /// where it has none; `exists` says whether that form was found on disk.
    /// Where the resource is available the command that decrypts it comes
    /// back, with the request's credential in its environment. In every other
    /// case the reply is the same 404, whatever kept the resource back.
    pub fn resolved(self, resolved: Option<&[u8]>, exists: bool, root: &ResourcePath) -> (res:
        Result<(Running, Invocation), Reply>)
        ensures
            match resolution(self@, resolved_view(resolved), exists, root@) {
                Ok((running, command)) => res matches Ok((r, c)) && r@ == running && c@
                    == command,
                Err(reply) => res matches Err(r) && r@ == reply,
            },
    {
        match safe_path(resolved, root) {
            Some(path) if exists => {
                let command = Invocation::decrypt(&path, self.password);
                Ok((Running { method: self.method, path: self.path }, command))
            },
            _ => Err(Reply::compose(self.method, self.path, Err(GatewayError::ResourceUnavailable))),
        }
    }
}

impl Running {
    /// Ends the request with the outcome of its decryption.
    ///
    /// Success sends the decrypted bytes. Failure sends a fixed 500; the
    /// diagnostic goes to the operator with the error and never to the client.
    pub fn finished(self, outcome: DecryptionOutcome) -> (reply: Reply)
        ensures
            reply@ == completion(self@, outcome@),
    {
        match outcome {
            DecryptionOutcome::Success(plain) => Reply::compose(self.method, self.path, Ok(plain)),
            DecryptionOutcome::Failure { exit, diagnostic } => Reply::compose(
                self.method,
                self.path,
                Err(GatewayError::from_failure(exit, diagnostic)),
            ),
        }
    }
}

/// A path that leaves the root is answered as a path that does not exist.
///
/// Take one request whose path resolves to a place that is not below the
/// root, by `..`, by an absolute path or through a symbolic link, and another
/// whose path resolves to nothing or to something that is not on disk. Both
/// end at the second decision, and the client gets the same response for both:
/// status 404, no header and an empty body.
pub proof fn lemma_escape_answers_as_absence(
    escaping: AdmittedView,
    outside: Seq<u8>,
    exists: bool,
    absent: AdmittedView,
    resolved: Option<Seq<u8>>,
    found: bool,
    root: Seq<u8>,
)
    requires
        !contained(outside, root),
        resolved is None || !found,
    ensures
        resolution(escaping, Some(outside), exists, root) is Err,
        resolution(absent, resolved, found, root) is Err,
        resolution(escaping, Some(outside), exists, root)->Err_0.response == ResponseView::bare(
            404,
        ),
        resolution(absent, resolved, found, root)->Err_0.response == ResponseView::bare(404),
        resolution(escaping, Some(outside), exists, root)->Err_0.audit.outcome == resolution(
            absent,
            resolved,
            found,
            root,
        )->Err_0.audit.outcome,
        resolution(escaping, Some(outside), exists, root)->Err_0.error == resolution(
            absent,
            resolved,
            found,
            root,
        )->Err_0.error,
{
}

/// A command is handed out only for an available resource, and it is the
/// command for that resource and the credential of that request.
pub proof fn lemma_command_needs_both_checks(
    request: RequestView,
    resolved: Option<Seq<u8>>,
    exists: bool,
    root: Seq<u8>,
)
    ensures
        admission(request) matches Ok(admitted) ==> extract(request.authorization) == Ok::<
            Seq<char>,
            Rejection,
        >(admitted.password),
        admission(request) matches Ok(admitted) ==> (resolution(admitted, resolved, exists, root)
            is Ok <==> available(resolved, exists, root)),
        admission(request) matches Ok(admitted) ==> (resolution(admitted, resolved, exists, root)
            matches Ok((_, command)) ==> command == decryption(resolved->0, admitted.password)),
{
}

/// A request without an `Authorization` header is answered by 401 and a
/// challenge for the `Basic` scheme. The body is one fixed sentence, so it
/// holds nothing that the request brought.
pub proof fn lemma_missing_credential_is_challenged(request: RequestView)
    requires
        request.authorization is None,
    ensures
        admission(request) is Err,
        admission(request)->Err_0.response.status == 401,
        admission(request)->Err_0.response.has_header(CHALLENGE@, CHALLENGE_BASIC@),
        admission(request)->Err_0.response.body == encode_utf8(MISSING_TEXT@),
{
    let headers = admission(request)->Err_0.response.headers;
    assert(headers[1] == (CHALLENGE@, CHALLENGE_BASIC@));
}

/// A request whose `Authorization` header is not framed as `Basic <token>` is
/// answered by 400: where the header is not text, where it holds no space, and
/// where what stands before the first space is not `Basic`.
pub proof fn lemma_unusable_credential_is_bad_request(request: RequestView)
    requires
        request.authorization matches Some(value) && (!is_header_text(value)
            || value.index_of_first(32u8) is None || !is_basic(
            value.subrange(0, value.index_of_first(32u8)->0),
        )),
    ensures
        admission(request) is Err,
        admission(request)->Err_0.response.status == 400,
{
}

/// What is sent for a refused credential depends on the kind of refusal alone.
/// Two headers that are refused for the same reason get the same response,
/// byte for byte, so no part of a header can show up in it.
pub proof fn lemma_refusal_hides_the_header(first: RequestView, second: RequestView)
    requires
        extract(first.authorization) is Err,
        extract(first.authorization) == extract(second.authorization),
    ensures
        admission(first) is Err,
        admission(second) is Err,
        admission(first)->Err_0.response == admission(second)->Err_0.response,
        admission(first)->Err_0.error == admission(second)->Err_0.error,
{
}

/// A decryption that leaves with status zero is answered by 200 and exactly
/// the bytes that the program wrote, whatever it wrote to its error output.
pub proof fn lemma_success_sends_the_output(
    running: RunningView,
    stdout: Seq<u8>,
    stderr: Seq<u8>,
)
    ensures
        completion(running, outcome_of_exit(Some(0), stdout, stderr)).response
            == ResponseView::bytes(200, stdout),
        completion(running, outcome_of_exit(Some(0), stdout, stderr)).error is None,
{
}

/// A decryption that does not leave with status zero is answered by 500 and
/// one fixed sentence. Neither what the program wrote to its output nor what
/// it wrote to its error output has any part in the response.
pub proof fn lemma_failure_sends_nothing_learnt(
    running: RunningView,
    code: Option<i32>,
    stdout: Seq<u8>,
    stderr: Seq<u8>,
)
    requires
        code != Some(0i32),
    ensures
        completion(running, outcome_of_exit(code, stdout, stderr)).response == ResponseView::text(
            500,
            DECRYPTION_FAILED_TEXT@,
        ),
        completion(running, outcome_of_exit(code, stdout, stderr)).error is Some,
        completion(running, outcome_of_exit(code, stdout, stderr)).error->0.detail()
            == FAILED_DETAIL@ + diagnostic_text(stderr),
{
}

/// The credential of a request reaches the environment of its command and
/// nothing else. Two admitted requests that differ in their credential alone
/// fare alike at the second decision: both are turned away with the same
/// reply, or both go on, with the same program and the same arguments.
pub proof fn lemma_credential_reaches_only_the_environment(
    first: AdmittedView,
    second: AdmittedView,
    resolved: Option<Seq<u8>>,
    exists: bool,
    root: Seq<u8>,
)
    requires
        first.method == second.method,
        first.path == second.path,
    ensures
        resolution(first, resolved, exists, root) is Err <==> resolution(
            second,
            resolved,
            exists,
            root,
        ) is Err,
        resolution(first, resolved, exists, root) is Err ==> resolution(
            first,
            resolved,
            exists,
            root,
        ) == resolution(second, resolved, exists, root),
        resolution(first, resolved, exists, root) matches Ok((running, command)) ==> (resolution(
            second,
            resolved,
            exists,
            root,
        ) matches Ok((other_running, other_command)) && running == other_running
            && command.program == other_command.program && command.arguments
            == other_command.arguments),
{
}

} // verus!
