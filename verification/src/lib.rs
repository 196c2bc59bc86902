//! A stateless gateway in front of encrypted files.
//!
//! A client names a resource and presents a credential. The gateway reads the
//! credential from the `Authorization` header, confines the resource to a fixed
//! root directory and, when both checks pass, describes the one command that
//! decrypts the resource with the credential as key material. What the command
//! produced is then turned into the HTTP response.
//!
//! The crate holds the decisions only. Everything that touches the network, the
//! filesystem or a child process is left to the caller, who reports back in
//! plain values.

pub mod auth;
pub mod compose;
pub mod decrypt;
pub mod gateway;
pub mod path;
pub mod request;
pub mod response;
