//! The `ping` request, which answers with what it was sent.

use crate::error::NeomacsError;
use crate::msgpack::{MsgString, MsgValue};
use crate::rpc::codec::{is_error_value, ErrorResponse, ErrorType, Request, Response};
use crate::rpc::handler::RequestContext;
use crate::text::{bytes_debug, concat_str, debug_bytes, debug_text, decimal, str_debug, u64_to_decimal};
use vstd::prelude::*;
use vstd::string::*;

verus! {

/// How a string parameter is written in a reply: as its `Display` writes
/// it, which quotes valid text and lists the bytes of invalid text.
pub open spec fn shown(s: MsgString) -> Seq<char> {
    match s {
        MsgString::Valid(t) => debug_text(t@),
        MsgString::Invalid(b) => debug_bytes(b@),
    }
}

/// The text of a string parameter as `Display` writes it.
pub fn show(s: &MsgString) -> (r: String)
    ensures
        r@ == shown(*s),
{
    match s {
        MsgString::Valid(t) => str_debug(t.as_str()),
        MsgString::Invalid(b) => bytes_debug(b.as_slice()),
    }
}

/// Answers `ping` requests.
#[derive(Debug)]
pub struct PingHandler;

impl PingHandler {
    pub fn new() -> (h: Self) {
        Self {}
    }

    /// The methods this handler answers.
    pub fn handled_methods() -> (r: Vec<&'static str>)
        ensures
            r@.len() == 1,
            r@[0]@ == "ping"@,
    {
        proof { reveal_strlit("ping"); }
        let mut v: Vec<&'static str> = Vec::new();
        v.push("ping");
        v
    }

    /// Answers a request with one string parameter by echoing it together
    /// with the connection id, and any other request with an
    /// `INVALID_REQUEST` error.
    pub fn handle(&mut self, context: RequestContext, request: &Request) -> (r: Result<Response, NeomacsError>)
        ensures
            r matches Ok(resp) && resp.msg_id == request.msg_id,
            request.params@.len() == 1 && request.params@[0] is String ==> (r matches Ok(resp)
                && (resp.error is None
                && (resp.result matches Some(MsgValue::String(MsgString::Valid(t)))
                && t@ == "Pong! connection id: "@ + decimal(context.connection_id as nat) + ", data: "@
                    + shown(request.params@[0]->String_0)))),
            !(request.params@.len() == 1 && request.params@[0] is String) ==> (r matches Ok(resp)
                && (resp.result is None
                && (resp.error matches Some(e) && is_error_value(e, ErrorType::InvalidRequest, "Ping requires a string param"@)))),
    {
        if request.params.len() == 1 {
            if let MsgValue::String(data) = &request.params[0] {
                proof {
                    reveal_strlit("Pong! connection id: ");
                    reveal_strlit(", data: ");
                }
                let mut text = concat_str("Pong! connection id: ", u64_to_decimal(context.connection_id).as_str());
                text.append(", data: ");
                text.append(show(data).as_str());
                return Ok(Response {
                    msg_id: request.msg_id,
                    error: None,
                    result: Some(MsgValue::String(MsgString::Valid(text))),
                });
            }
        }
        proof { reveal_strlit("Ping requires a string param"); }
        Ok(ErrorResponse::new(ErrorType::InvalidRequest, "Ping requires a string param").into_response(request.msg_id))
    }
}

impl Default for PingHandler {
    fn default() -> (h: Self) {
        Self::new()
    }
}

} // verus!
