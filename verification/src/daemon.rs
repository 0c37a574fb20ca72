//! The editor daemon's request layer: reading a request sent as a single
//! MessagePack datagram, the events such a request stands for, answering
//! `ping`, and the mutations of the daemon's state.

use crate::buffer::BufferState;
use crate::error::NeomacsError;
use crate::msgpack::{spec_as_str, spec_as_u64, MsgInteger, MsgString, MsgValue};
use crate::ping::{show, shown};
use crate::rpc::codec::{is_error_value, msgpack_bytes, reads_back, writes_back, msgpack_front, read_front, write_value, ErrorResponse, ErrorType, ReadOutcome, Request, Response};
use crate::rpc::convert::EncodeValue;
use crate::text::{concat_str, str_eq};
use vstd::prelude::*;
use vstd::string::*;

verus! {

/// A request as the daemon reads it.
#[derive(Debug)]
pub struct RpcRequest {
    pub msg_id: u64,
    pub method: String,
    pub params: Vec<MsgValue>,
}

/// The error for a value that is not a request.
pub fn invalid_request() -> (e: NeomacsError)
    ensures
        e matches NeomacsError::RequestError(m) && m@ == "Invalid RPC request"@,
{
    proof { reveal_strlit("Invalid RPC request"); }
    NeomacsError::RequestError(String::from_str("Invalid RPC request"))
}

/// The request that the daemon reads from `v`, if any: `v` must be an
/// array of four elements whose first is the integer 0, whose second is a
/// string (taken as the method) and whose third is an array (taken as the
/// parameters); the message id is taken from the first element.
pub open spec fn rpc_request_from(v: MsgValue) -> Option<RpcRequest> {
    match v {
        MsgValue::Array(a) => if a@.len() == 4 && spec_as_u64(a@[0]) == Some(0u64) {
            match (a@[1], a@[2]) {
                (MsgValue::String(MsgString::Valid(m)), MsgValue::Array(p)) =>
                    Some(RpcRequest { msg_id: 0, method: m, params: p }),
                _ => None,
            }
        } else {
            None
        },
        _ => None,
    }
}

impl RpcRequest {
    /// Reads a request from the bytes of one datagram: the value at their
    /// front, read as `from_value` reads it; bytes that do not start with a
    /// MessagePack value give a `MessagePackDecode` error.
    pub fn from_bytes(bytes: &[u8]) -> (r: Result<RpcRequest, NeomacsError>)
        ensures
            match msgpack_front(bytes@) {
                Ok((v, _)) => match rpc_request_from(v) {
                    Some(req) => r matches Ok(x) && x == req,
                    None => r matches Err(NeomacsError::RequestError(m)) && m@ == "Invalid RPC request"@,
                },
                Err(_) => r matches Err(NeomacsError::MessagePackDecode(_)),
            },
    {
        match read_front(bytes) {
            ReadOutcome::Complete(v, _) => Self::from_value(v),
            ReadOutcome::UnexpectedEof(e) => Err(NeomacsError::MessagePackDecode(e)),
            ReadOutcome::Failed(e) => Err(NeomacsError::MessagePackDecode(e)),
        }
    }

    /// Reads a request from the MessagePack value that its bytes decode to.
    pub fn from_value(value: MsgValue) -> (r: Result<RpcRequest, NeomacsError>)
        ensures
            match rpc_request_from(value) {
                Some(req) => r matches Ok(x) && x == req,
                None => r matches Err(NeomacsError::RequestError(m)) && m@ == "Invalid RPC request"@,
            },
    {
        let mut arr = match value {
            MsgValue::Array(a) => a,
            _ => return Err(invalid_request()),
        };
        let ghost orig = arr@;
        if arr.len() != 4 {
            return Err(invalid_request());
        }
        let _x3 = arr.pop();
        let x2 = arr.pop();
        let x1 = arr.pop();
        let x0 = arr.pop();
        let (x0, x1, x2) = match (x0, x1, x2) {
            (Some(a), Some(b), Some(c)) => (a, b, c),
            _ => {
                proof { assert(false); }
                return Err(invalid_request());
            },
        };
        assert(x0 == orig[0] && x1 == orig[1] && x2 == orig[2]);
        let is_request = match x0.as_u64() {
            None => false,
            Some(t) => t == 0,
        };
        if !is_request {
            return Err(invalid_request());
        }
        let msg_id = match x0.as_u64() {
            Some(id) => id,
            None => return Err(invalid_request()),
        };
        let method = match x1 {
            MsgValue::String(MsgString::Valid(m)) => m,
            _ => return Err(invalid_request()),
        };
        let params = match x2 {
            MsgValue::Array(p) => p,
            _ => return Err(invalid_request()),
        };
        Ok(RpcRequest { msg_id, method, params })
    }
}

/// A response as the daemon writes it.
#[derive(Debug)]
pub struct RpcResponse {
    msg_id: u32,
    error: Option<MsgValue>,
    result: Option<MsgValue>,
}

impl RpcResponse {
    /// The response's message id.
    pub closed spec fn spec_msg_id(self) -> u32 {
        self.msg_id
    }

    /// The response's error.
    pub closed spec fn spec_error(self) -> Option<MsgValue> {
        self.error
    }

    /// The response's result.
    pub closed spec fn spec_result(self) -> Option<MsgValue> {
        self.result
    }

    /// The MessagePack bytes of the response's array (as `into_value`
    /// makes it). Writing cannot fail.
    pub fn to_bytes(self) -> (r: Result<Vec<u8>, NeomacsError>)
        ensures
            r is Ok,
            r matches Ok(b) ==> exists|v: MsgValue| (v matches MsgValue::Array(a) && a@ == seq![
                MsgValue::Integer(MsgInteger::PosInt(1u64)),
                MsgValue::Integer(MsgInteger::PosInt(self.spec_msg_id() as u64)),
                match self.spec_error() { Some(e) => e, None => MsgValue::Nil },
                match self.spec_result() { Some(r) => r, None => MsgValue::Nil },
            ]) && b@ == msgpack_bytes(v) && (writes_back(v) ==> reads_back(b@, v)),
    {
        let v = self.into_value();
        Ok(write_value(&v))
    }

    /// The MessagePack array that this response is written as: the type 1,
    /// the message id, the error or nil, and the result or nil.
    pub fn into_value(self) -> (v: MsgValue)
        ensures
            v matches MsgValue::Array(a) && a@ == seq![
                MsgValue::Integer(MsgInteger::PosInt(1u64)),
                MsgValue::Integer(MsgInteger::PosInt(self.spec_msg_id() as u64)),
                match self.spec_error() { Some(e) => e, None => MsgValue::Nil },
                match self.spec_result() { Some(r) => r, None => MsgValue::Nil },
            ],
    {
        let mut out: Vec<MsgValue> = Vec::new();
        out.push(MsgValue::from_u64(1));
        out.push(MsgValue::from_u64(self.msg_id as u64));
        out.push(match self.error {
            None => MsgValue::Nil,
            Some(v) => v,
        });
        out.push(match self.result {
            None => MsgValue::Nil,
            Some(v) => v,
        });
        MsgValue::Array(out)
    }
}

/// An event that a request stands for.
#[derive(Debug, PartialEq, Eq, Structural)]
pub enum Event {
    Shutdown,
}

impl Event {
    /// The event that the request's method names: `Shutdown` is the only
    /// one; any other method is an error that names it.
    pub fn from_rpc_request(request: &RpcRequest) -> (r: Result<Event, NeomacsError>)
        ensures
            request.method@ == "Shutdown"@ ==> r == Ok::<Event, NeomacsError>(Event::Shutdown),
            request.method@ != "Shutdown"@ ==> (r matches Err(NeomacsError::RequestError(m))
                && m@ == "Unknown RPC method "@ + request.method@),
    {
        proof {
            reveal_strlit("Shutdown");
            reveal_strlit("Unknown RPC method ");
        }
        if str_eq(request.method.as_str(), "Shutdown") {
            Ok(Event::Shutdown)
        } else {
            Err(NeomacsError::RequestError(concat_str("Unknown RPC method ", request.method.as_str())))
        }
    }
}

/// Answers the daemon's `ping` request.
#[derive(Debug)]
pub struct PingHandler;

impl PingHandler {
    pub fn new() -> (h: Self) {
        Self {}
    }

    /// The methods this handler answers.
    pub fn handled_methods() -> (r: Vec<&'static str>)
        ensures
            r@.len() == 1,
            r@[0]@ == "ping"@,
    {
        proof { reveal_strlit("ping"); }
        let mut v: Vec<&'static str> = Vec::new();
        v.push("ping");
        v
    }

    /// Answers a request with one string parameter by echoing it, and any
    /// other request with an `INVALID_REQUEST` error.
    pub fn handle(&mut self, request: &Request) -> (r: Result<Response, NeomacsError>)
        ensures
            r matches Ok(resp) && resp.msg_id == request.msg_id,
            request.params@.len() == 1 && request.params@[0] is String ==> (r matches Ok(resp)
                && (resp.error is None
                && (resp.result matches Some(MsgValue::String(MsgString::Valid(t)))
                && t@ == "Pong! data: "@ + shown(request.params@[0]->String_0)))),
            !(request.params@.len() == 1 && request.params@[0] is String) ==> (r matches Ok(resp)
                && (resp.result is None
                && (resp.error matches Some(e) && is_error_value(e, ErrorType::InvalidRequest, "Ping requires a string param"@)))),
    {
        if request.params.len() == 1 {
            if let MsgValue::String(data) = &request.params[0] {
                proof { reveal_strlit("Pong! data: "); }
                let text = concat_str("Pong! data: ", show(data).as_str());
                return Ok(Response {
                    msg_id: request.msg_id,
                    error: None,
                    result: Some(MsgValue::String(MsgString::Valid(text))),
                });
            }
        }
        proof { reveal_strlit("Ping requires a string param"); }
        let err = ErrorResponse::new(ErrorType::InvalidRequest, "Ping requires a string param");
        Ok(Response { msg_id: request.msg_id, error: Some(err.encode_value()), result: None })
    }
}

/// An instruction to change some piece of the daemon's state.
#[derive(Debug)]
pub enum Mutation {
    /// Make the named buffer the current buffer.
    SwitchBuffer { name: String },
}

/// The daemon's state: the open buffers and which is current.
#[derive(Debug)]
pub struct AppState {
    buffers: BufferState,
}

impl AppState {
    /// The open buffers.
    pub closed spec fn spec_buffers(self) -> BufferState {
        self.buffers
    }

    /// The state holding `buffers`.
    pub fn new(buffers: BufferState) -> (s: Self)
        ensures
            s.spec_buffers() == buffers,
    {
        Self { buffers }
    }

    /// The open buffers.
    pub fn buffers(&self) -> (b: &BufferState)
        ensures
            *b == self.spec_buffers(),
    {
        &self.buffers
    }

    /// Carries out `mutation`: switching to a buffer that is open makes it
    /// current; switching to one that is not fails and changes nothing.
    pub fn apply(&mut self, mutation: Mutation) -> (r: Result<(), NeomacsError>)
        requires
            old(self).spec_buffers().wf(),
        ensures
            final(self).spec_buffers().wf(),
            final(self).spec_buffers().spec_buffers() == old(self).spec_buffers().spec_buffers(),
            match mutation {
                Mutation::SwitchBuffer { name } =>
                    if old(self).spec_buffers().spec_buffers().dom().contains(name@) {
                        r is Ok && final(self).spec_buffers().spec_current() == name@
                    } else {
                        final(self).spec_buffers().spec_current() == old(self).spec_buffers().spec_current()
                            && (r matches Err(NeomacsError::DoesNotExist(m)) && m@ == "Buffer "@ + name@)
                    },
            },
    {
        match mutation {
            Mutation::SwitchBuffer { name } => self.buffers.set_current_buffer(name.as_str()),
        }
    }
}

/// Redraws the screen; there is nothing to draw yet.
pub fn redraw() {
}

/// The TCP address the daemon listens on where it cannot use a Unix socket.
pub fn tcp_addr() -> (s: String)
    ensures
        s@ == "127.0.0.1:554433"@,
{
    proof { reveal_strlit("127.0.0.1:554433"); }
    String::from_str("127.0.0.1:554433")
}

} // verus!
