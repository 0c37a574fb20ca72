//! The errors of the editor and of its RPC layer.

use crate::command::{Type, Value};
use vstd::prelude::*;
use vstd::string::*;

verus! {

#[verifier::external_type_specification]
#[verifier::external_body]
pub struct ExAnyhowError(anyhow::Error);

#[verifier::external_type_specification]
#[verifier::external_body]
pub struct ExIoError(std::io::Error);

#[verifier::external_type_specification]
#[verifier::external_body]
pub struct ExMsgpackDecodeError(rmpv::decode::Error);

#[verifier::external_type_specification]
#[verifier::external_body]
pub struct ExElapsed(tokio::time::error::Elapsed);

/// Everything that can go wrong in the editor.
#[derive(Debug)]
pub enum NeomacsError {
    /// An invalid request.
    RequestError(String),
    /// Something (the text names it) does not exist.
    DoesNotExist(String),
    /// Something (the text names it) already exists.
    AlreadyExists(String),
    /// A command was given parameters that its signature does not accept.
    InvalidCommandInput { command: String, expected_input: Vec<Type>, input: Vec<Value> },
    /// A value that is not a MessagePack-RPC message.
    InvalidRPCMessage,
    /// A split location out of range, by the bit pattern of the `f64` that was given.
    InvalidSplit(u64),
    /// An operation ran out of time.
    Timeout(tokio::time::error::Elapsed),
    /// An I/O failure.
    IO(std::io::Error),
    /// A MessagePack value that does not have the shape asked for.
    MessagePackParse(String),
    /// Bytes that are not a MessagePack value.
    MessagePackDecode(rmpv::decode::Error),
    /// A value that could not be written as MessagePack bytes: the I/O
    /// error under rmpv's encode error.
    MessagePackEncode(std::io::Error),
    /// Any other failure.
    Unhandled(anyhow::Error),
}

impl NeomacsError {
    /// The error for a command `command` called with `input` where its
    /// signature asks for `expected_input`.
    pub fn invalid_command_input(command: &str, expected_input: Vec<Type>, input: Vec<Value>) -> (r: Self)
        ensures
            r matches NeomacsError::InvalidCommandInput { command: c, expected_input: e, input: i }
                && c@ == command@ && e == expected_input && i == input,
    {
        NeomacsError::InvalidCommandInput {
            command: String::from_str(command),
            expected_input,
            input,
        }
    }
}

/// Wraps an error value into an `anyhow::Error` (`anyhow::Error::new`).
/// Nothing is claimed of the result: it is opaque to the library.
#[verifier::external_body]
fn anyhow_error_new<E: std::error::Error + Send + Sync + 'static>(e: E) -> anyhow::Error {
    anyhow::Error::new(e)
}

/// Makes an `anyhow::Error` that carries the text `message`
/// (`anyhow::Error::msg`). Nothing is claimed of the result: it is opaque
/// to the library.
#[verifier::external_body]
pub(crate) fn anyhow_msg(message: String) -> anyhow::Error {
    anyhow::Error::msg(message)
}

/// Passes a success through, and turns any error into `NeomacsError::Unhandled`.
pub fn wrap_err<T, E: std::error::Error + Send + Sync + 'static>(result: Result<T, E>) -> (r: Result<T, NeomacsError>)
    ensures
        match result {
            Ok(v) => r == Ok::<T, NeomacsError>(v),
            Err(_) => r matches Err(NeomacsError::Unhandled(_)),
        },
{
    match result {
        Ok(v) => Ok(v),
        Err(e) => Err(NeomacsError::Unhandled(anyhow_error_new(e))),
    }
}

} // verus!
