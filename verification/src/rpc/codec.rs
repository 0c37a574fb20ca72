//! MessagePack-RPC messages: requests, responses and notifications, read
//! from and written as MessagePack arrays.

use crate::error::NeomacsError;
use crate::msgpack::{spec_as_str, spec_as_u64, MsgInteger, MsgString, MsgValue};
use crate::rpc::convert::EncodeValue;
use crate::rpc::display::{display_text, rmpv_value, value_display};
use rmpv::Value as RmpvValue;
use rmpv::{Integer, Utf8String};
use std::io::{Cursor, ErrorKind};
use vstd::prelude::*;
use vstd::string::*;

verus! {

/// The first element of a request.
pub const REQUEST_TYPE: u64 = 0;
/// The first element of a response.
pub const RESPONSE_TYPE: u64 = 1;
/// The first element of a notification.
pub const NOTIFICATION_TYPE: u64 = 2;

/// A call that expects a response.
#[derive(Debug, PartialEq)]
pub struct Request {
    pub msg_id: u64,
    pub method: String,
    pub params: Vec<MsgValue>,
}

/// The answer to a request.
#[derive(Debug, PartialEq)]
pub struct Response {
    pub msg_id: u64,
    pub error: Option<MsgValue>,
    pub result: Option<MsgValue>,
}

impl Response {
    /// A successful response.
    pub fn success(msg_id: u64, result: Option<MsgValue>) -> (r: Self)
        ensures
            r == (Response { msg_id, error: None, result }),
    {
        Self { msg_id, error: None, result }
    }

    /// A successful response whose result is the map `{"status": <status>}`.
    pub fn success_with_status(msg_id: u64, status: &str) -> (r: Self)
        ensures
            r.msg_id == msg_id,
            r.error is None,
            r.result matches Some(MsgValue::Dict(m)) && m@.len() == 1
                && spec_as_str(m@[0].0) == Some("status"@) && spec_as_str(m@[0].1) == Some(status@),
    {
        proof { reveal_strlit("status"); }
        let mut m: Vec<(MsgValue, MsgValue)> = Vec::new();
        m.push((MsgValue::from_string(String::from_str("status")), MsgValue::from_string(String::from_str(status))));
        Self { msg_id, error: None, result: Some(MsgValue::Dict(m)) }
    }

    /// What a response to a call carries: its result (nil where it has
    /// none) or, where it carries an error, a `RequestError` whose text is
    /// the error value as rmpv writes it.
    pub fn try_unwrap(self) -> (r: Result<MsgValue, NeomacsError>)
        ensures
            match self.error {
                Some(e) => r matches Err(NeomacsError::RequestError(t)) && t@ == display_text(e),
                None => r == Ok::<MsgValue, NeomacsError>(match self.result {
                    Some(v) => v,
                    None => MsgValue::Nil,
                }),
            },
    {
        match self.error {
            Some(e) => Err(NeomacsError::RequestError(value_display(&e))),
            None => match self.result {
                Some(v) => Ok(v),
                None => Ok(MsgValue::Nil),
            },
        }
    }

    /// A failed response.
    pub fn error(msg_id: u64, error: Option<MsgValue>) -> (r: Self)
        ensures
            r == (Response { msg_id, error, result: None }),
    {
        Self { msg_id, error, result: None }
    }
}

/// A call that expects no response.
#[derive(Debug, PartialEq)]
pub struct Notification {
    pub method: String,
    pub params: Vec<MsgValue>,
}

/// Any MessagePack-RPC message.
#[derive(Debug, PartialEq)]
pub enum Message {
    Request(Request),
    Response(Response),
    Notification(Notification),
}

/// `v`, or nothing where `v` is nil.
pub open spec fn non_nil(v: MsgValue) -> Option<MsgValue> {
    if v is Nil { None } else { Some(v) }
}

/// The message that the array `a` holds, if it holds one.
pub open spec fn message_from_array(a: Seq<MsgValue>) -> Option<Message> {
    if !(3 <= a.len() <= 4) {
        None
    } else {
        match spec_as_u64(a[0]) {
            Some(t) => if t == 0 {
                match (spec_as_u64(a[1]), a[2], a[3]) {
                    (Some(id), MsgValue::String(MsgString::Valid(m)), MsgValue::Array(p)) =>
                        Some(Message::Request(Request { msg_id: id, method: m, params: p })),
                    _ => None,
                }
            } else if t == 1 {
                match spec_as_u64(a[1]) {
                    Some(id) => Some(Message::Response(Response { msg_id: id, error: non_nil(a[2]), result: non_nil(a[3]) })),
                    None => None,
                }
            } else if t == 2 {
                match (a[1], a[2]) {
                    (MsgValue::String(MsgString::Valid(m)), MsgValue::Array(p)) =>
                        Some(Message::Notification(Notification { method: m, params: p })),
                    _ => None,
                }
            } else {
                None
            },
            None => None,
        }
    }
}

/// The message that `v` holds, if it holds one.
pub open spec fn message_from_value(v: MsgValue) -> Option<Message> {
    match v {
        MsgValue::Array(a) => message_from_array(a@),
        _ => None,
    }
}

/// Whether reading `v` as a message would look at a fourth element that a
/// three-element array does not have: a request or a response whose first
/// elements are well formed.
pub open spec fn message_read_overruns(v: MsgValue) -> bool {
    match v {
        MsgValue::Array(a) => a@.len() == 3 && match spec_as_u64(a@[0]) {
            Some(t) => (t == 0 && spec_as_u64(a@[1]) is Some && spec_as_str(a@[2]) is Some)
                || (t == 1 && spec_as_u64(a@[1]) is Some),
            None => false,
        },
        _ => false,
    }
}


/// A string value holding `s`.
pub open spec fn str_value(s: String) -> MsgValue {
    MsgValue::String(MsgString::Valid(s))
}

/// An integer value holding `n`.
pub open spec fn u64_value(n: u64) -> MsgValue {
    MsgValue::Integer(MsgInteger::PosInt(n))
}

/// The elements of the array that a message is written as.
pub open spec fn message_elements(m: Message) -> Seq<MsgValue> {
    match m {
        Message::Request(r) => seq![u64_value(REQUEST_TYPE), u64_value(r.msg_id), str_value(r.method), MsgValue::Array(r.params)],
        Message::Response(r) => seq![
            u64_value(RESPONSE_TYPE),
            u64_value(r.msg_id),
            match r.error { Some(e) => e, None => MsgValue::Nil },
            match r.result { Some(v) => v, None => MsgValue::Nil },
        ],
        Message::Notification(n) => seq![u64_value(NOTIFICATION_TYPE), str_value(n.method), MsgValue::Array(n.params)],
    }
}

/// `m` with a response's nil error or nil result read as absent, which is
/// how a message reads back after it is written.
pub open spec fn normalized(m: Message) -> Message {
    match m {
        Message::Response(r) => Message::Response(Response {
            msg_id: r.msg_id,
            error: match r.error { Some(e) => non_nil(e), None => None },
            result: match r.result { Some(v) => non_nil(v), None => None },
        }),
        _ => m,
    }
}

/// Writing a message and reading it back gives the message again, with a
/// response's nil error or nil result read as absent; the read never looks
/// past the end of the written array.
pub proof fn law_message_roundtrip(m: Message, v: MsgValue)
    requires
        v matches MsgValue::Array(a) && a@ == message_elements(m),
    ensures
        !message_read_overruns(v),
        message_from_value(v) == Some(normalized(m)),
{
    match m {
        Message::Response(r) => {
            assert(r.error matches Some(e) ==> non_nil(e) == non_nil(e));
        },
        _ => {},
    }
}

/// Where each part of a message stands in the array it is written as: a
/// request is `[0, msg_id, method, params]`, a response `[1, msg_id,
/// error, result]` (nil for an absent error or result) and a notification
/// `[2, method, params]`.
pub proof fn law_message_positions(m: Message)
    ensures
        match m {
            Message::Request(r) => {
                let a = message_elements(m);
                &&& a.len() == 4
                &&& spec_as_u64(a[0]) == Some(0u64)
                &&& spec_as_u64(a[1]) == Some(r.msg_id)
                &&& spec_as_str(a[2]) == Some(r.method@)
                &&& a[3] == MsgValue::Array(r.params)
            },
            Message::Response(r) => {
                let a = message_elements(m);
                &&& a.len() == 4
                &&& spec_as_u64(a[0]) == Some(1u64)
                &&& spec_as_u64(a[1]) == Some(r.msg_id)
                &&& (r.error matches Some(e) ==> a[2] == e)
                &&& (r.error is None ==> a[2] is Nil)
                &&& (r.result matches Some(v) ==> a[3] == v)
                &&& (r.result is None ==> a[3] is Nil)
            },
            Message::Notification(n) => {
                let a = message_elements(m);
                &&& a.len() == 3
                &&& spec_as_u64(a[0]) == Some(2u64)
                &&& spec_as_str(a[1]) == Some(n.method@)
                &&& a[2] == MsgValue::Array(n.params)
            },
        },
{
}

/// A four-element array that starts with 1 and an id reads as the
/// response with that id whose error is element 2 and whose result is
/// element 3, each absent where it is nil.
pub proof fn law_response_read_positions(a: Seq<MsgValue>, id: u64)
    requires
        a.len() == 4,
        spec_as_u64(a[0]) == Some(1u64),
        spec_as_u64(a[1]) == Some(id),
    ensures
        message_from_array(a) matches Some(Message::Response(r)) && r.msg_id == id
            && (a[2] is Nil ==> r.error is None) && (!(a[2] is Nil) ==> r.error == Some(a[2]))
            && (a[3] is Nil ==> r.result is None) && (!(a[3] is Nil) ==> r.result == Some(a[3])),
{
}

/// A four-element array `[0, id, method, params]` reads as the request
/// with that id, method and parameters.
pub proof fn law_request_read_positions(a: Seq<MsgValue>, id: u64, method: String, params: Vec<MsgValue>)
    requires
        a.len() == 4,
        spec_as_u64(a[0]) == Some(0u64),
        spec_as_u64(a[1]) == Some(id),
        a[2] == MsgValue::String(MsgString::Valid(method)),
        a[3] == MsgValue::Array(params),
    ensures
        message_from_array(a) == Some(Message::Request(Request { msg_id: id, method, params })),
{
}

/// A three-element array `[2, method, params]` reads as the notification
/// with that method and parameters.
pub proof fn law_notification_read_positions(a: Seq<MsgValue>, method: String, params: Vec<MsgValue>)
    requires
        a.len() == 3,
        spec_as_u64(a[0]) == Some(2u64),
        a[1] == MsgValue::String(MsgString::Valid(method)),
        a[2] == MsgValue::Array(params),
    ensures
        message_from_array(a) == Some(Message::Notification(Notification { method, params })),
{
}

impl Message {
    /// The MessagePack array that this message is written as.
    pub fn into_value(self) -> (v: MsgValue)
        ensures
            v matches MsgValue::Array(a) && a@ == message_elements(self),
    {
        let mut out: Vec<MsgValue> = Vec::new();
        match self {
            Message::Request(Request { msg_id, method, params }) => {
                out.push(MsgValue::from_u64(REQUEST_TYPE));
                out.push(MsgValue::from_u64(msg_id));
                out.push(MsgValue::String(MsgString::Valid(method)));
                out.push(MsgValue::Array(params));
            },
            Message::Response(Response { msg_id, error, result }) => {
                out.push(MsgValue::from_u64(RESPONSE_TYPE));
                out.push(MsgValue::from_u64(msg_id));
                out.push(match error {
                    None => MsgValue::Nil,
                    Some(val) => val,
                });
                out.push(match result {
                    None => MsgValue::Nil,
                    Some(val) => val,
                });
            },
            Message::Notification(Notification { method, params }) => {
                out.push(MsgValue::from_u64(NOTIFICATION_TYPE));
                out.push(MsgValue::String(MsgString::Valid(method)));
                out.push(MsgValue::Array(params));
            },
        }
        assert(out@ =~= message_elements(self));
        MsgValue::Array(out)
    }

    /// Whether reading `value` as a message would look past its end; such
    /// a read is left out of `try_from_value`'s domain.
    pub fn read_overruns(value: &MsgValue) -> (r: bool)
        ensures
            r == message_read_overruns(*value),
    {
        match value {
            MsgValue::Array(a) => {
                if a.len() != 3 {
                    return false;
                }
                match a[0].as_u64() {
                    Some(t) => (t == 0 && a[1].as_u64().is_some() && a[2].is_str()) || (t == 1 && a[1].as_u64().is_some()),
                    None => false,
                }
            },
            _ => false,
        }
    }

    /// Reads `value` as a message: an array of three or four elements whose
    /// first is the message type (0 request, 1 response, 2 notification).
    pub fn try_from_value(value: MsgValue) -> (r: Result<Message, NeomacsError>)
        requires
            !message_read_overruns(value),
        ensures
            match message_from_value(value) {
                Some(m) => r == Ok::<Message, NeomacsError>(m),
                None => r matches Err(NeomacsError::InvalidRPCMessage),
            },
    {
        let arr = match value {
            MsgValue::Array(a) => a,
            _ => return Err(NeomacsError::InvalidRPCMessage),
        };
        let ghost orig = arr@;
        let len = arr.len();
        if !(3 <= len && len <= 4) {
            return Err(NeomacsError::InvalidRPCMessage);
        }
        let mut arr = arr;
        let fourth = if len == 4 { arr.pop() } else { None };
        let third = arr.pop();
        let second = arr.pop();
        let first = arr.pop();
        let (x0, x1, x2) = match (first, second, third) {
            (Some(a), Some(b), Some(c)) => (a, b, c),
            _ => {
                proof { assert(false); }
                return Err(NeomacsError::InvalidRPCMessage);
            },
        };
        assert(x0 == orig[0] && x1 == orig[1] && x2 == orig[2]);
        assert(len == 4 ==> fourth == Some(orig[3]));
        let msg_type = match x0.as_u64() {
            Some(t) => t,
            None => return Err(NeomacsError::InvalidRPCMessage),
        };
        if msg_type == 0 {
            let msg_id = match x1.as_u64() {
                Some(id) => id,
                None => return Err(NeomacsError::InvalidRPCMessage),
            };
            let method = match x2 {
                MsgValue::String(MsgString::Valid(m)) => m,
                _ => return Err(NeomacsError::InvalidRPCMessage),
            };
            let x3 = match fourth {
                Some(v) => v,
                None => {
                    proof { assert(false); }
                    return Err(NeomacsError::InvalidRPCMessage);
                },
            };
            let params = match x3 {
                MsgValue::Array(p) => p,
                _ => return Err(NeomacsError::InvalidRPCMessage),
            };
            Ok(Message::Request(Request { msg_id, method, params }))
        } else if msg_type == 1 {
            let msg_id = match x1.as_u64() {
                Some(id) => id,
                None => return Err(NeomacsError::InvalidRPCMessage),
            };
            let error = if x2.is_nil() { None } else { Some(x2) };
            let x3 = match fourth {
                Some(v) => v,
                None => {
                    proof { assert(false); }
                    return Err(NeomacsError::InvalidRPCMessage);
                },
            };
            let result = if x3.is_nil() { None } else { Some(x3) };
            Ok(Message::Response(Response { msg_id, error, result }))
        } else if msg_type == 2 {
            let method = match x1 {
                MsgValue::String(MsgString::Valid(m)) => m,
                _ => return Err(NeomacsError::InvalidRPCMessage),
            };
            let params = match x2 {
                MsgValue::Array(p) => p,
                _ => return Err(NeomacsError::InvalidRPCMessage),
            };
            Ok(Message::Notification(Notification { method, params }))
        } else {
            Err(NeomacsError::InvalidRPCMessage)
        }
    }
}

/// The kind of a failed request, as the error response names it.
#[derive(Clone, Copy, Debug, PartialEq, Eq, Structural)]
pub enum ErrorType {
    InvalidRequest,
    UnknownMethod,
}

/// The text that names an error kind.
pub open spec fn error_code(t: ErrorType) -> Seq<char> {
    match t {
        ErrorType::InvalidRequest => "INVALID_REQUEST"@,
        ErrorType::UnknownMethod => "UNKNOWN_METHOD"@,
    }
}

impl ErrorType {
    /// The text that names this error kind.
    pub fn code(&self) -> (s: String)
        ensures
            s@ == error_code(*self),
    {
        proof {
            reveal_strlit("INVALID_REQUEST");
            reveal_strlit("UNKNOWN_METHOD");
        }
        match self {
            ErrorType::InvalidRequest => String::from_str("INVALID_REQUEST"),
            ErrorType::UnknownMethod => String::from_str("UNKNOWN_METHOD"),
        }
    }
}

impl EncodeValue for ErrorType {
    open spec fn encodes_to(&self, v: MsgValue) -> bool {
        spec_as_str(v) == Some(error_code(*self)) && v is String
    }

    fn encode_value(&self) -> (v: MsgValue) {
        MsgValue::String(MsgString::Valid(self.code()))
    }
}

/// The error of a failed request: its kind and a message.
#[derive(Debug)]
pub struct ErrorResponse {
    code: ErrorType,
    message: String,
}

/// Whether `v` is the map `{"code": <code>, "message": <message>}`.
pub open spec fn is_error_value(v: MsgValue, code: ErrorType, message: Seq<char>) -> bool {
    &&& v matches MsgValue::Dict(m)
    &&& m@.len() == 2
    &&& spec_as_str(m@[0].0) == Some("code"@)
    &&& spec_as_str(m@[0].1) == Some(error_code(code))
    &&& spec_as_str(m@[1].0) == Some("message"@)
    &&& spec_as_str(m@[1].1) == Some(message)
}

impl ErrorResponse {
    /// The error kind.
    pub closed spec fn spec_code(self) -> ErrorType {
        self.code
    }

    /// The message.
    pub closed spec fn spec_message(self) -> Seq<char> {
        self.message@
    }

    pub fn new(code: ErrorType, message: &str) -> (r: Self)
        ensures
            r.spec_code() == code,
            r.spec_message() == message@,
    {
        Self { code, message: String::from_str(message) }
    }

    /// The failed response to the request `msg_id` that carries this error.
    pub fn into_response(self, msg_id: u64) -> (r: Response)
        ensures
            r.msg_id == msg_id,
            r.result is None,
            r.error matches Some(e) && is_error_value(e, self.spec_code(), self.spec_message()),
    {
        Response::error(msg_id, Some(self.encode_value()))
    }
}

impl EncodeValue for ErrorResponse {
    open spec fn encodes_to(&self, v: MsgValue) -> bool {
        is_error_value(v, self.spec_code(), self.spec_message())
    }

    fn encode_value(&self) -> (v: MsgValue) {
        proof {
            reveal_strlit("code");
            reveal_strlit("message");
        }
        let mut m: Vec<(MsgValue, MsgValue)> = Vec::new();
        m.push((MsgValue::String(MsgString::Valid(String::from_str("code"))), self.code.encode_value()));
        m.push((MsgValue::String(MsgString::Valid(String::from_str("message"))), MsgValue::String(MsgString::Valid(self.message.clone()))));
        MsgValue::Dict(m)
    }
}

/// What came of reading one MessagePack value from the front of the bytes
/// received so far.
#[derive(Debug)]
pub enum ReadOutcome {
    /// A whole value, which took up the first `consumed` bytes.
    Complete(MsgValue, u64),
    /// The bytes end before the value does (rmpv's error says so).
    UnexpectedEof(rmpv::decode::Error),
    /// The bytes are not MessagePack.
    Failed(rmpv::decode::Error),
}

#[verifier::external_type_specification]
#[verifier::external_body]
pub struct ExRmpvValue(RmpvValue);

#[verifier::external_type_specification]
#[verifier::external_body]
pub struct ExRmpvInteger(Integer);

#[verifier::external_type_specification]
#[verifier::external_body]
pub struct ExUtf8String(Utf8String);

/// What `rmpv::decode::read_value` reads from the front of `bytes`: the
/// value (as the library holds it) and how many bytes it took up; or, where
/// it fails, whether it failed because the bytes end too early (`true`) or
/// for another reason (`false`).
pub uninterp spec fn msgpack_front(bytes: Seq<u8>) -> Result<(MsgValue, nat), bool>;

/// An rmpv integer as the library holds it: as a `u64` where it fits one,
/// else as the negative `i64` that rmpv keeps.
#[verifier::external_body]
fn msg_integer(n: Integer) -> MsgInteger {
    match n.as_u64() {
        Some(u) => MsgInteger::PosInt(u),
        None => MsgInteger::NegInt(n.as_i64().unwrap_or(0)),
    }
}

/// An rmpv string as the library holds it: its text where it is UTF-8,
/// else its bytes.
#[verifier::external_body]
fn msg_string(s: Utf8String) -> MsgString {
    if s.is_str() {
        MsgString::Valid(s.into_str().unwrap_or_default())
    } else {
        MsgString::Invalid(s.into_bytes())
    }
}

/// An rmpv map as the library holds it, entry for entry.
#[verifier::external_body]
fn msg_map(m: Vec<(RmpvValue, RmpvValue)>) -> MsgValue {
    MsgValue::Dict(m.into_iter().map(|e| (msg_value(e.0), msg_value(e.1))).collect())
}

/// An rmpv value as the library holds it, variant for variant (floats by
/// their bit patterns).
#[verifier::external_body]
fn msg_value(v: RmpvValue) -> MsgValue {
    match v {
        RmpvValue::Nil => MsgValue::Nil,
        RmpvValue::Boolean(b) => MsgValue::Boolean(b),
        RmpvValue::Integer(n) => MsgValue::Integer(msg_integer(n)),
        RmpvValue::F32(x) => MsgValue::F32(x.to_bits()),
        RmpvValue::F64(x) => MsgValue::F64(x.to_bits()),
        RmpvValue::String(t) => MsgValue::String(msg_string(t)),
        RmpvValue::Binary(b) => MsgValue::Binary(b),
        RmpvValue::Array(a) => MsgValue::Array(a.into_iter().map(msg_value).collect()),
        RmpvValue::Map(m) => msg_map(m),
        RmpvValue::Ext(t, d) => MsgValue::Ext(t, d),
    }
}

/// Whether every extension value in `v` (outside the bytes of another
/// extension value) holds fewer than `n` bytes.
pub open spec fn ext_below(v: MsgValue, n: nat) -> bool
    decreases v,
{
    match v {
        MsgValue::Ext(_, d) => d@.len() < n,
        MsgValue::Array(a) => forall|i: int| 0 <= i < a@.len() ==> ext_below(#[trigger] a@[i], n),
        MsgValue::Dict(m) => forall|i: int| 0 <= i < m@.len() ==> ext_below((#[trigger] m@[i]).0, n) && ext_below(m@[i].1, n),
        _ => true,
    }
}

/// One more than the most bytes an extension value in `v` holds (outside
/// the bytes of another extension value); 0 where there is none.
pub open spec fn ext_bound(v: MsgValue) -> nat
    decreases v,
{
    match v {
        MsgValue::Ext(_, d) => d@.len() + 1,
        MsgValue::Array(a) => ext_bound_all(a@),
        MsgValue::Dict(m) => ext_bound_pairs(m@),
        _ => 0,
    }
}

/// The greatest `ext_bound` of the values of `s`.
pub open spec fn ext_bound_all(s: Seq<MsgValue>) -> nat
    decreases s,
{
    if s.len() == 0 {
        0
    } else {
        let h = ext_bound(s[0]);
        let t = ext_bound_all(s.subrange(1, s.len() as int));
        if h > t { h } else { t }
    }
}

/// The greatest `ext_bound` of the keys and values of `s`.
pub open spec fn ext_bound_pairs(s: Seq<(MsgValue, MsgValue)>) -> nat
    decreases s,
{
    if s.len() == 0 {
        0
    } else {
        let k = ext_bound(s[0].0);
        let w = ext_bound(s[0].1);
        let t = ext_bound_pairs(s.subrange(1, s.len() as int));
        let h = if k > w { k } else { w };
        if h > t { h } else { t }
    }
}

/// A bound on the bytes of extension values holds of any greater bound.
pub proof fn lemma_ext_below_grows(v: MsgValue, n: nat, m: nat)
    requires
        ext_below(v, n),
        n <= m,
    ensures
        ext_below(v, m),
    decreases v,
{
    match v {
        MsgValue::Array(a) => {
            assert forall|i: int| 0 <= i < a@.len() implies ext_below(#[trigger] a@[i], m) by {
                lemma_ext_below_grows(a@[i], n, m);
            }
        },
        MsgValue::Dict(d) => {
            assert forall|i: int| 0 <= i < d@.len() implies ext_below((#[trigger] d@[i]).0, m) && ext_below(d@[i].1, m) by {
                lemma_ext_below_grows(d@[i].0, n, m);
                lemma_ext_below_grows(d@[i].1, n, m);
            }
        },
        _ => {},
    }
}

proof fn lemma_ext_bound_all(s: Seq<MsgValue>, i: int)
    requires
        0 <= i < s.len(),
    ensures
        ext_bound(s[i]) <= ext_bound_all(s),
    decreases s.len(),
{
    if i > 0 {
        let t = s.subrange(1, s.len() as int);
        lemma_ext_bound_all(t, i - 1);
        assert(t[i - 1] == s[i]);
    }
}

proof fn lemma_ext_bound_pairs(s: Seq<(MsgValue, MsgValue)>, i: int)
    requires
        0 <= i < s.len(),
    ensures
        ext_bound(s[i].0) <= ext_bound_pairs(s),
        ext_bound(s[i].1) <= ext_bound_pairs(s),
    decreases s.len(),
{
    if i > 0 {
        let t = s.subrange(1, s.len() as int);
        lemma_ext_bound_pairs(t, i - 1);
        assert(t[i - 1] == s[i]);
    }
}

/// Every extension value in `v` holds fewer bytes than `ext_bound(v)`.
pub proof fn lemma_ext_bound(v: MsgValue)
    ensures
        ext_below(v, ext_bound(v)),
    decreases v,
{
    match v {
        MsgValue::Array(a) => {
            assert forall|i: int| 0 <= i < a@.len() implies ext_below(#[trigger] a@[i], ext_bound(v)) by {
                lemma_ext_bound(a@[i]);
                lemma_ext_bound_all(a@, i);
                lemma_ext_below_grows(a@[i], ext_bound(a@[i]), ext_bound(v));
            }
        },
        MsgValue::Dict(d) => {
            assert forall|i: int| 0 <= i < d@.len() implies ext_below((#[trigger] d@[i]).0, ext_bound(v)) && ext_below(d@[i].1, ext_bound(v)) by {
                lemma_ext_bound(d@[i].0);
                lemma_ext_bound(d@[i].1);
                lemma_ext_bound_pairs(d@, i);
                lemma_ext_below_grows(d@[i].0, ext_bound(d@[i].0), ext_bound(v));
                lemma_ext_below_grows(d@[i].1, ext_bound(d@[i].1), ext_bound(v));
            }
        },
        _ => {},
    }
}

/// `rmpv::decode::read_value` over the front of `bytes`: the value read
/// and the bytes it took up, or the error, told apart by whether its kind
/// is `UnexpectedEof`. What is read is named by `msgpack_front`. The
/// reader takes no more bytes than there are, and an extension value it
/// reads holds bytes it took up, after at least a marker and a type tag, so
/// fewer than it took up in all.
#[verifier::external_body]
pub(crate) fn read_front(bytes: &[u8]) -> (r: ReadOutcome)
    ensures
        match r {
            ReadOutcome::Complete(v, n) => msgpack_front(bytes@) == Ok::<(MsgValue, nat), bool>((v, n as nat))
                && n <= bytes@.len() && ext_below(v, n as nat),
            ReadOutcome::UnexpectedEof(_) => msgpack_front(bytes@) == Err::<(MsgValue, nat), bool>(true),
            ReadOutcome::Failed(_) => msgpack_front(bytes@) == Err::<(MsgValue, nat), bool>(false),
        },
{
    let mut cursor = Cursor::new(bytes);
    match rmpv::decode::read_value(&mut cursor) {
        Ok(v) => ReadOutcome::Complete(msg_value(v), cursor.position()),
        Err(e) if e.kind() == ErrorKind::UnexpectedEof => ReadOutcome::UnexpectedEof(e),
        Err(e) => ReadOutcome::Failed(e),
    }
}

/// The MessagePack bytes that `rmpv::encode::write_value` writes for the
/// rmpv value that `v` stands for.
pub uninterp spec fn msgpack_bytes(v: MsgValue) -> Seq<u8>;

/// Whether rmpv writes `v` as bytes from which it reads `v` back: every
/// negative integer is held as negative, every string is text (rmpv writes
/// non-UTF-8 text as binary), every length fits the 32 bits MessagePack
/// gives it, and arrays and maps nest at most `depth` deep (rmpv's reader
/// stops at a depth limit).
pub open spec fn canonical(v: MsgValue, depth: nat) -> bool
    decreases depth, 0nat,
{
    match v {
        MsgValue::Integer(MsgInteger::NegInt(i)) => i < 0,
        MsgValue::String(MsgString::Valid(s)) => s@.len() < 0x4000_0000,
        MsgValue::String(MsgString::Invalid(_)) => false,
        MsgValue::Binary(b) => b@.len() <= u32::MAX,
        MsgValue::Ext(_, d) => d@.len() <= u32::MAX,
        MsgValue::Array(a) => depth > 0 && canonical_all(a@, (depth - 1) as nat),
        MsgValue::Dict(m) => depth > 0 && m@.len() <= u32::MAX
            && canonical_all(m@.map_values(|e: (MsgValue, MsgValue)| e.0), (depth - 1) as nat)
            && canonical_all(m@.map_values(|e: (MsgValue, MsgValue)| e.1), (depth - 1) as nat),
        _ => true,
    }
}

/// Every value of `s` is canonical at `depth`, and there are at most
/// `u32::MAX` of them.
pub open spec fn canonical_all(s: Seq<MsgValue>, depth: nat) -> bool
    decreases depth, 1nat,
{
    s.len() <= u32::MAX && forall|i: int| 0 <= i < s.len() ==> canonical(#[trigger] s[i], depth)
}

/// Whether rmpv reads `v` from the front of `bytes` followed by anything,
/// taking up all of `bytes`, and reads every shorter part of `bytes` as
/// ending too early.
pub open spec fn reads_back(bytes: Seq<u8>, v: MsgValue) -> bool {
    &&& forall|extra: Seq<u8>| #[trigger] msgpack_front(bytes + extra) == Ok::<(MsgValue, nat), bool>((v, bytes.len()))
    &&& forall|k: int| 0 <= k < bytes.len() ==> #[trigger] msgpack_front(bytes.subrange(0, k)) == Err::<(MsgValue, nat), bool>(true)
}

/// The nesting that a value may have for rmpv to read it back.
pub open spec fn writes_back(v: MsgValue) -> bool {
    canonical(v, 500)
}

/// `rmpv::encode::write_value` into a new `Vec`, which cannot fail (a
/// `Vec` takes every write), so rmpv's result is not looked at. rmpv's
/// reader reads a canonical value back from the front of the bytes
/// written, whatever follows them, and reads any shorter part of them as
/// ending too early (MessagePack is prefix-free). The bytes of every
/// extension value are written whole, after a marker and a type tag, so
/// each holds fewer bytes than are written.
#[verifier::external_body]
pub fn write_value(v: &MsgValue) -> (bytes: Vec<u8>)
    ensures
        bytes@ == msgpack_bytes(*v),
        writes_back(*v) ==> reads_back(bytes@, *v),
        ext_below(*v, bytes@.len()),
{
    let mut out: Vec<u8> = Vec::new();
    let _ = rmpv::encode::write_value(&mut out, &rmpv_value(v));
    out
}

/// The MessagePack value at the front of `bytes`, or rmpv's error where
/// there is none.
pub fn read_value(bytes: &[u8]) -> (r: Result<MsgValue, rmpv::decode::Error>)
    ensures
        match msgpack_front(bytes@) {
            Ok((v, _)) => r == Ok::<MsgValue, rmpv::decode::Error>(v),
            Err(_) => r is Err,
        },
{
    match read_front(bytes) {
        ReadOutcome::Complete(v, _) => Ok(v),
        ReadOutcome::UnexpectedEof(e) => Err(e),
        ReadOutcome::Failed(e) => Err(e),
    }
}

/// Whether `bytes` start with the MessagePack array of the message `m`,
/// taking up `n` bytes, which a decoding step reads as `m` without looking
/// past the array's end.
pub open spec fn decodes_message(bytes: Seq<u8>, m: Message, n: nat) -> bool {
    &&& msgpack_front(bytes) matches Ok((v, k))
    &&& k == n
    &&& v is Array
    &&& !message_read_overruns(v)
    &&& message_from_value(v) == Some(m)
}

/// Whether `bytes` frame the message `m`: followed by anything, they
/// decode as `m` and take up all of `bytes`; any shorter part of them is
/// too short to decode.
pub open spec fn frames_message(bytes: Seq<u8>, m: Message) -> bool {
    &&& forall|extra: Seq<u8>| #[trigger] decodes_message(bytes + extra, m, bytes.len())
    &&& forall|k: int| 0 <= k < bytes.len() ==> #[trigger] msgpack_front(bytes.subrange(0, k)) == Err::<(MsgValue, nat), bool>(true)
}

/// A decoding step over the bytes of a framed message, whatever follows
/// them, gives the message and drops exactly its bytes (`decode_bytes`
/// returns `Some((Ok(Some(m)), bytes.len()))` wherever `decodes_message`
/// holds); over any shorter part of them it asks for more bytes
/// (`decode_bytes` returns `Some((Ok(None), 0))` wherever the read ends too
/// early).
pub proof fn law_framed_message_decodes(bytes: Seq<u8>, m: Message, extra: Seq<u8>, k: int)
    requires
        frames_message(bytes, m),
    ensures
        decodes_message(bytes + extra, m, bytes.len()),
        !decode_step_overruns(bytes + extra) <==> bytes.len() <= usize::MAX,
        0 <= k < bytes.len() ==> msgpack_front(bytes.subrange(0, k)) == Err::<(MsgValue, nat), bool>(true),
{
    assert(decodes_message(bytes + extra, m, bytes.len()));
    if 0 <= k < bytes.len() {
        assert(msgpack_front(bytes.subrange(0, k)) == Err::<(MsgValue, nat), bool>(true));
    }
}

/// Whether one decoding step over `bytes` is one that cannot be taken: the
/// front of the bytes is an array whose reading as a message looks past its
/// end, or a message that took up more bytes than a `usize` counts.
pub open spec fn decode_step_overruns(bytes: Seq<u8>) -> bool {
    msgpack_front(bytes) matches Ok((v, n)) && v is Array
        && (message_read_overruns(v) || (message_from_value(v) is Some && n > usize::MAX))
}

/// Frames MessagePack-RPC messages on a byte stream.
#[derive(Debug)]
pub struct MessageCodec;

impl MessageCodec {
    pub fn new() -> (c: Self) {
        Self {}
    }

    /// Decides what one decoding step gives, from what reading a value off
    /// the received bytes gave: the message (or nothing, where more bytes
    /// are needed, or the error) and how many bytes to drop from the front.
    /// Only a message that was read whole drops bytes.
    pub fn decode_read(&mut self, read: ReadOutcome) -> (r: (Result<Option<Message>, NeomacsError>, usize))
        requires
            read matches ReadOutcome::Complete(v, n) ==> n <= usize::MAX && !message_read_overruns(v),
        ensures
            match read {
                ReadOutcome::Complete(v, n) => match v {
                    MsgValue::Array(_) => match message_from_value(v) {
                        Some(m) => r.0 == Ok::<Option<Message>, NeomacsError>(Some(m)) && r.1 == n,
                        None => r.0 matches Err(NeomacsError::InvalidRPCMessage) && r.1 == 0,
                    },
                    _ => r.0 matches Err(NeomacsError::InvalidRPCMessage) && r.1 == 0,
                },
                ReadOutcome::UnexpectedEof(_) => r.0 == Ok::<Option<Message>, NeomacsError>(None) && r.1 == 0,
                ReadOutcome::Failed(e) => r.0 == Err::<Option<Message>, NeomacsError>(NeomacsError::MessagePackDecode(e)) && r.1 == 0,
            },
    {
        match read {
            ReadOutcome::Complete(val, consumed) => {
                if val.is_array() {
                    match Message::try_from_value(val) {
                        Ok(message) => (Ok(Some(message)), consumed as usize),
                        Err(e) => (Err(e), 0),
                    }
                } else {
                    (Err(NeomacsError::InvalidRPCMessage), 0)
                }
            },
            ReadOutcome::UnexpectedEof(_) => (Ok(None), 0),
            ReadOutcome::Failed(e) => (Err(NeomacsError::MessagePackDecode(e)), 0),
        }
    }

    /// The bytes that frame `item` on the stream: the MessagePack bytes of
    /// its value. Writing cannot fail. Where the message's values are
    /// canonical, the bytes decode back to the message (`frames_message`).
    pub fn encode_message(&mut self, item: Message) -> (r: Result<Vec<u8>, NeomacsError>)
        ensures
            r is Ok,
            r matches Ok(b) ==> exists|v: MsgValue| (v matches MsgValue::Array(a) && a@ == message_elements(item))
                && b@ == msgpack_bytes(v),
            r matches Ok(b) ==> (canonical_all(message_elements(item), 499) ==> frames_message(b@, normalized(item))),
    {
        let ghost m = item;
        let v = item.into_value();
        let b = write_value(&v);
        proof {
            law_message_roundtrip(m, v);
            if canonical_all(message_elements(m), 499) {
                assert(writes_back(v));
                assert forall|extra: Seq<u8>| #[trigger] decodes_message(b@ + extra, normalized(m), b@.len()) by {
                    assert(msgpack_front(b@ + extra) == Ok::<(MsgValue, nat), bool>((v, b@.len())));
                }
            }
        }
        Ok(b)
    }

    /// One decoding step over the bytes received so far: reads a value off
    /// their front and gives the message (or nothing, where more bytes are
    /// needed, or the error) and how many bytes to drop from the front. Only
    /// a message that was read whole drops bytes. Where the step cannot be
    /// taken (`decode_step_overruns`), the result is `None`.
    pub fn decode_bytes(&mut self, bytes: &[u8]) -> (r: Option<(Result<Option<Message>, NeomacsError>, usize)>)
        ensures
            r is None <==> decode_step_overruns(bytes@),
            r matches Some(step) ==> match msgpack_front(bytes@) {
                Ok((v, n)) => match v {
                    MsgValue::Array(_) => match message_from_value(v) {
                        Some(m) => step.0 == Ok::<Option<Message>, NeomacsError>(Some(m)) && step.1 == n,
                        None => step.0 matches Err(NeomacsError::InvalidRPCMessage) && step.1 == 0,
                    },
                    _ => step.0 matches Err(NeomacsError::InvalidRPCMessage) && step.1 == 0,
                },
                Err(true) => step.0 == Ok::<Option<Message>, NeomacsError>(None) && step.1 == 0,
                Err(false) => step.0 matches Err(NeomacsError::MessagePackDecode(_)) && step.1 == 0,
            },
            forall|m: Message, n: nat| #[trigger] decodes_message(bytes@, m, n) && n <= usize::MAX
                ==> r == Some((Ok::<Option<Message>, NeomacsError>(Some(m)), n as usize)),
    {
        let read = read_front(bytes);
        match read {
            ReadOutcome::Complete(val, consumed) => {
                if !val.is_array() {
                    return Some((Err(NeomacsError::InvalidRPCMessage), 0));
                }
                if Message::read_overruns(&val) {
                    return None;
                }
                match Message::try_from_value(val) {
                    Ok(message) => {
                        if consumed > usize::MAX as u64 {
                            None
                        } else {
                            Some((Ok(Some(message)), consumed as usize))
                        }
                    },
                    Err(e) => Some((Err(e), 0)),
                }
            },
            ReadOutcome::UnexpectedEof(_) => Some((Ok(None), 0)),
            ReadOutcome::Failed(e) => Some((Err(NeomacsError::MessagePackDecode(e)), 0)),
        }
    }
}

} // verus!
