//! The decryption invoker: the one command that decrypts a resource, and what
//! its end means.
//!
//! Decryption is the work of an external program. This module says how it is
//! to be started and reads its exit; starting it and waiting for it is the
//! caller's part. The key-derivation function and the cipher are fixed here and
//! no request can choose others. The credential reaches the program through
//! its environment and never through its arguments, which any user of the
//! machine can list.

use crate::auth::Password;
use crate::path::ResourcePath;
use vstd::prelude::*;
use vstd::slice::slice_to_vec;
use vstd::string::StrSliceExecFns;
use vstd::utf8::{decode_utf8, encode_utf8, valid_utf8};

verus! {

/// The program that decrypts.
pub const PROGRAM: &'static str = "openssl";

/// The environment variable in which the program finds the passphrase.
pub const PASSPHRASE_VARIABLE: &'static str = "PASSWORD";

/// What stands for error output that is not UTF-8.
pub const UNREADABLE: &'static str = "(error message contained invalid utf-8)";

/// A command, ready to be started.
#[derive(Debug, PartialEq, Eq)]
pub struct Invocation {
    pub program: String,
    pub arguments: Vec<Vec<u8>>,
    pub environment: Vec<(String, String)>,
}

/// What an [`Invocation`] holds, as mathematical values.
pub struct InvocationView {
    pub program: Seq<char>,
    pub arguments: Seq<Seq<u8>>,
    pub environment: Seq<(Seq<char>, Seq<char>)>,
}

impl View for Invocation {
    type V = InvocationView;

    open spec fn view(&self) -> InvocationView {
        InvocationView {
            program: self.program@,
            arguments: Seq::new(self.arguments@.len(), |i: int| self.arguments@[i]@),
            environment: Seq::new(
                self.environment@.len(),
                |i: int| (self.environment@[i].0@, self.environment@[i].1@),
            ),
        }
    }
}

/// The arguments that decrypt the file at `input`: the subcommand, the
/// direction, the key derivation, the cipher, where the passphrase is found,
/// and the input file last.
pub open spec fn decrypt_arguments(input: Seq<u8>) -> Seq<Seq<u8>> {
    seq![
        encode_utf8("enc"@),
        encode_utf8("-d"@),
        encode_utf8("-pbkdf2"@),
        encode_utf8("-chacha20"@),
        encode_utf8("-pass=env:PASSWORD"@),
        encode_utf8("-in"@),
        input,
    ]
}

/// The command that decrypts the file at `input` with `key` as passphrase.
pub open spec fn decryption(input: Seq<u8>, key: Seq<char>) -> InvocationView {
    InvocationView {
        program: PROGRAM@,
        arguments: decrypt_arguments(input),
        environment: seq![(PASSPHRASE_VARIABLE@, key)],
    }
}

impl Invocation {
    /// The command that decrypts `path` with `password` as passphrase.
    ///
    /// The program and its arguments depend on the path alone. The password
    /// goes into the environment, as the only variable set.
    pub fn decrypt(path: &ResourcePath, password: Password) -> (command: Invocation)
        ensures
            command@ == decryption(path@, password.0@),
    {
        let mut arguments: Vec<Vec<u8>> = Vec::new();
        arguments.push("enc".as_bytes_vec());
        arguments.push("-d".as_bytes_vec());
        arguments.push("-pbkdf2".as_bytes_vec());
        arguments.push("-chacha20".as_bytes_vec());
        arguments.push("-pass=env:PASSWORD".as_bytes_vec());
        arguments.push("-in".as_bytes_vec());
        arguments.push(slice_to_vec(path.as_bytes()));
        let mut environment: Vec<(String, String)> = Vec::new();
        environment.push((PASSPHRASE_VARIABLE.to_owned(), password.0));
        let command = Invocation { program: PROGRAM.to_owned(), arguments, environment };
        assert(command@.arguments =~= decrypt_arguments(path@));
        assert(command@.environment =~= seq![(PASSPHRASE_VARIABLE@, password.0@)]);
        command
    }
}

/// How an attempt to decrypt ended, where it did not succeed.
#[derive(Clone, Copy, Debug, PartialEq, Eq, Structural)]
pub enum Exit {
    /// The program ran and left with this status, which is not zero.
    Code(i32),
    /// The program ran and was ended from outside before it could leave.
    Killed,
    /// The program could not be started.
    NotStarted,
}

/// The result of one attempt to decrypt.
#[derive(Debug, PartialEq, Eq)]
pub enum DecryptionOutcome {
    /// The program left with status zero; these are the bytes it wrote.
    Success(Vec<u8>),
    /// Anything else, with the text that says what went wrong. The text is for
    /// the operator and must not reach the client.
    Failure { exit: Exit, diagnostic: String },
}

/// What a [`DecryptionOutcome`] holds, as mathematical values.
pub enum OutcomeView {
    Success(Seq<u8>),
    Failure { exit: Exit, diagnostic: Seq<char> },
}

impl View for DecryptionOutcome {
    type V = OutcomeView;

    open spec fn view(&self) -> OutcomeView {
        match self {
            DecryptionOutcome::Success(plain) => OutcomeView::Success(plain@),
            DecryptionOutcome::Failure { exit, diagnostic } => OutcomeView::Failure {
                exit: *exit,
                diagnostic: diagnostic@,
            },
        }
    }
}

/// The error output of the program as text: decoded where it is UTF-8, a fixed
/// remark where it is not.
pub open spec fn diagnostic_text(stderr: Seq<u8>) -> Seq<char> {
    if valid_utf8(stderr) {
        decode_utf8(stderr)
    } else {
        UNREADABLE@
    }
}

/// The outcome of a program that ran to its end. Only status zero is success,
/// and then the output counts as it is; in every other case the error output
/// is the diagnostic.
pub open spec fn outcome_of_exit(code: Option<i32>, stdout: Seq<u8>, stderr: Seq<u8>)
    -> OutcomeView {
    match code {
        Some(status) => if status == 0 {
            OutcomeView::Success(stdout)
        } else {
            OutcomeView::Failure { exit: Exit::Code(status), diagnostic: diagnostic_text(stderr) }
        },
        None => OutcomeView::Failure { exit: Exit::Killed, diagnostic: diagnostic_text(stderr) },
    }
}

/// Decodes bytes as UTF-8 with `std::str::from_utf8`: text comes back exactly
/// where the bytes are valid UTF-8, and it is the text that they encode.
#[verifier::external_body]
fn utf8_text(bytes: &[u8]) -> (text: Option<String>)
    ensures
        text is Some <==> valid_utf8(bytes@),
        text matches Some(s) ==> s@ == decode_utf8(bytes@),
{
    match std::str::from_utf8(bytes) {
        Ok(text) => Some(text.to_owned()),
        Err(_) => None,
    }
}

impl DecryptionOutcome {
    /// Reads the end of a program that ran: its exit status, if it left with
    /// one, and what it wrote to its output and its error output.
    pub fn from_exit(code: Option<i32>, stdout: Vec<u8>, stderr: Vec<u8>) -> (outcome:
        DecryptionOutcome)
        ensures
            outcome@ == outcome_of_exit(code, stdout@, stderr@),
    {
        let exit = match code {
            Some(status) => {
                if status == 0 {
                    return DecryptionOutcome::Success(stdout);
                }
                Exit::Code(status)
            },
            None => Exit::Killed,
        };
        let diagnostic = match utf8_text(stderr.as_slice()) {
            Some(text) => text,
            None => UNREADABLE.to_owned(),
        };
        DecryptionOutcome::Failure { exit, diagnostic }
    }

    /// The outcome where the program could not be started; `detail` says why.
    pub fn not_started(detail: String) -> (outcome: DecryptionOutcome)
        ensures
            outcome@ == (OutcomeView::Failure { exit: Exit::NotStarted, diagnostic: detail@ }),
    {
        DecryptionOutcome::Failure { exit: Exit::NotStarted, diagnostic: detail }
    }
}

} // verus!
