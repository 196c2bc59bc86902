use decrypt_gateway::auth::{PasswordError, NOT_BASIC, NOT_TEXT};
use decrypt_gateway::compose::{
    Audit, Category, GatewayError, Reply, DECRYPTION_FAILED_TEXT, FAILED_DETAIL, INTERNAL_TEXT,
    UNAVAILABLE_DETAIL,
};
use decrypt_gateway::decrypt::Exit;
use decrypt_gateway::response::Response;

fn plain_text() -> Vec<(String, String)> {
    vec![("content-type".to_string(), "text/plain; charset=utf-8".to_string())]
}

fn failed(exit: Exit, diagnostic: &str) -> GatewayError {
    GatewayError::DecryptionFailed { exit, diagnostic: diagnostic.to_string() }
}

#[test]
fn bare_response_has_only_a_status() {
    let response = Response::new(404);
    assert_eq!(response, Response { status: 404, headers: Vec::new(), body: Vec::new() });
}

#[test]
fn text_response_declares_plain_text() {
    let response = Response::text(500, "né");
    assert_eq!(
        response,
        Response { status: 500, headers: plain_text(), body: vec![110, 0xc3, 0xa9] }
    );
}

#[test]
fn bytes_response_has_no_header() {
    let response = Response::bytes(200, vec![1, 2, 3]);
    assert_eq!(response, Response { status: 200, headers: Vec::new(), body: vec![1, 2, 3] });
}

#[test]
fn header_is_added_after_the_others() {
    let response = Response::text(200, "").with_header("x-a", "1").with_header("x-b", "2");
    assert_eq!(
        response.headers,
        vec![
            ("content-type".to_string(), "text/plain; charset=utf-8".to_string()),
            ("x-a".to_string(), "1".to_string()),
            ("x-b".to_string(), "2".to_string()),
        ]
    );
    assert_eq!(response.status, 200);
    assert_eq!(response.body, Vec::<u8>::new());
}

#[test]
fn password_error_becomes_its_category() {
    assert_eq!(
        GatewayError::from_password_error(PasswordError::Missing),
        GatewayError::MissingCredential
    );
    assert_eq!(
        GatewayError::from_password_error(PasswordError::Invalid(NOT_BASIC)),
        GatewayError::InvalidCredentialFormat(NOT_BASIC)
    );
}

#[test]
fn failure_becomes_its_category() {
    assert_eq!(GatewayError::from_failure(Exit::Code(1), "d".to_string()), failed(Exit::Code(1), "d"));
    assert_eq!(GatewayError::from_failure(Exit::Killed, "d".to_string()), failed(Exit::Killed, "d"));
    assert_eq!(
        GatewayError::from_failure(Exit::NotStarted, "d".to_string()),
        GatewayError::InternalUnexpected { diagnostic: "d".to_string() }
    );
}

#[test]
fn each_error_has_its_category() {
    assert_eq!(GatewayError::MissingCredential.category(), Category::MissingCredential);
    assert_eq!(
        GatewayError::InvalidCredentialFormat(NOT_TEXT).category(),
        Category::InvalidCredentialFormat
    );
    assert_eq!(GatewayError::ResourceUnavailable.category(), Category::ResourceUnavailable);
    assert_eq!(failed(Exit::Code(1), "").category(), Category::DecryptionFailed);
    assert_eq!(
        GatewayError::InternalUnexpected { diagnostic: String::new() }.category(),
        Category::InternalUnexpected
    );
}

#[test]
fn each_error_has_its_status() {
    assert_eq!(GatewayError::MissingCredential.status(), 401);
    assert_eq!(GatewayError::InvalidCredentialFormat(NOT_TEXT).status(), 400);
    assert_eq!(GatewayError::ResourceUnavailable.status(), 404);
    assert_eq!(failed(Exit::Code(1), "").status(), 500);
    assert_eq!(GatewayError::InternalUnexpected { diagnostic: String::new() }.status(), 500);
}

#[test]
fn status_is_that_of_the_response() {
    let errors = vec![
        GatewayError::MissingCredential,
        GatewayError::InvalidCredentialFormat(NOT_BASIC),
        GatewayError::ResourceUnavailable,
        failed(Exit::Killed, "x"),
        GatewayError::InternalUnexpected { diagnostic: "y".to_string() },
    ];
    for error in &errors {
        assert_eq!(error.status(), error.response().status);
    }
}

#[test]
fn credential_errors_are_answered_as_the_extractor_says() {
    assert_eq!(GatewayError::MissingCredential.response(), PasswordError::Missing.error_response());
    assert_eq!(
        GatewayError::InvalidCredentialFormat(NOT_BASIC).response(),
        PasswordError::Invalid(NOT_BASIC).error_response()
    );
}

#[test]
fn unavailable_resource_is_answered_by_a_bare_404() {
    assert_eq!(
        GatewayError::ResourceUnavailable.response(),
        Response { status: 404, headers: Vec::new(), body: Vec::new() }
    );
}

#[test]
fn failed_decryption_is_answered_by_a_fixed_500() {
    let expected =
        Response { status: 500, headers: plain_text(), body: b"decryption failed".to_vec() };
    assert_eq!(failed(Exit::Code(1), "bad decrypt").response(), expected);
    assert_eq!(failed(Exit::Killed, "something else entirely").response(), expected);
    assert_eq!(DECRYPTION_FAILED_TEXT, "decryption failed");
}

#[test]
fn internal_failure_is_answered_by_a_fixed_500() {
    let expected = Response { status: 500, headers: plain_text(), body: b"internal error".to_vec() };
    assert_eq!(
        GatewayError::InternalUnexpected { diagnostic: "No such file".to_string() }.response(),
        expected
    );
    assert_eq!(INTERNAL_TEXT, "internal error");
}

#[test]
fn detail_holds_what_the_operator_needs() {
    assert_eq!(
        GatewayError::MissingCredential.detail(),
        "authorization is required to access this resource"
    );
    assert_eq!(
        GatewayError::InvalidCredentialFormat(NOT_BASIC).detail(),
        PasswordError::Invalid(NOT_BASIC).message()
    );
    assert_eq!(GatewayError::ResourceUnavailable.detail(), "resource unavailable");
    assert_eq!(
        failed(Exit::Code(1), "bad decrypt\n").detail(),
        "OpenSSL command failed: bad decrypt\n"
    );
    assert_eq!(
        GatewayError::InternalUnexpected { diagnostic: "No such file".to_string() }.detail(),
        "No such file"
    );
    assert_eq!(UNAVAILABLE_DETAIL, "resource unavailable");
    assert_eq!(FAILED_DETAIL, "OpenSSL command failed: ");
}

#[test]
fn reply_to_success_sends_the_bytes() {
    let reply = Reply::compose("GET".to_string(), "notes.enc".to_string(), Ok(vec![0, 1, 254, 255]));
    assert_eq!(
        reply,
        Reply {
            response: Response { status: 200, headers: Vec::new(), body: vec![0, 1, 254, 255] },
            audit: Audit {
                method: "GET".to_string(),
                path: "notes.enc".to_string(),
                outcome: Category::Served,
            },
            error: None,
        }
    );
}

#[test]
fn reply_to_an_error_keeps_the_error_for_the_operator() {
    let reply = Reply::compose("GET".to_string(), "a/b".to_string(), Err(failed(Exit::Code(3), "why")));
    assert_eq!(
        reply,
        Reply {
            response: Response {
                status: 500,
                headers: plain_text(),
                body: b"decryption failed".to_vec(),
            },
            audit: Audit {
                method: "GET".to_string(),
                path: "a/b".to_string(),
                outcome: Category::DecryptionFailed,
            },
            error: Some(failed(Exit::Code(3), "why")),
        }
    );
}
