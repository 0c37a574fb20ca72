use neomacs::error::NeomacsError;
use neomacs::msgpack::{MsgInteger, MsgString, MsgValue};
use neomacs::rpc::codec::{
    ErrorResponse, ErrorType, Message, MessageCodec, Notification, ReadOutcome, Request, Response,
};
use neomacs::rpc::convert::{DecodeValue, EncodeValue};
use neomacs::rpc::extensions::is_optional;
use neomacs::rpc::handler::RequestContext;

fn s(t: &str) -> MsgValue {
    MsgValue::String(MsgString::Valid(t.to_string()))
}

fn uint(n: u64) -> MsgValue {
    MsgValue::Integer(MsgInteger::PosInt(n))
}

fn request() -> Message {
    Message::Request(Request { msg_id: 123, method: "foobar".to_string(), params: vec![s("baz")] })
}

#[test]
fn request_written_as_array() {
    let v = request().into_value();
    assert_eq!(v, MsgValue::Array(vec![uint(0), uint(123), s("foobar"), MsgValue::Array(vec![s("baz")])]));
}

#[test]
fn request_roundtrip() {
    let v = request().into_value();
    assert_eq!(Message::try_from_value(v).unwrap(), request());
}

#[test]
fn notification_roundtrip() {
    let n = || Message::Notification(Notification { method: "ev".to_string(), params: vec![uint(1)] });
    let v = n().into_value();
    assert_eq!(v, MsgValue::Array(vec![uint(2), s("ev"), MsgValue::Array(vec![uint(1)])]));
    assert_eq!(Message::try_from_value(v).unwrap(), n());
}

#[test]
fn response_roundtrip_drops_nil() {
    let r = Message::Response(Response { msg_id: 9, error: Some(MsgValue::Nil), result: Some(s("ok")) });
    let v = r.into_value();
    assert_eq!(
        Message::try_from_value(v).unwrap(),
        Message::Response(Response { msg_id: 9, error: None, result: Some(s("ok")) })
    );
}

#[test]
fn invalid_messages_are_rejected() {
    let bad = vec![
        MsgValue::Nil,
        MsgValue::Array(vec![uint(0), uint(1)]),
        MsgValue::Array(vec![uint(7), uint(1), s("m"), MsgValue::Array(vec![])]),
        MsgValue::Array(vec![uint(0), s("x"), s("m"), MsgValue::Array(vec![])]),
        MsgValue::Array(vec![uint(2), uint(5), MsgValue::Array(vec![])]),
        MsgValue::Array(vec![uint(0), uint(1), s("m"), uint(3)]),
    ];
    for v in bad {
        assert!(matches!(Message::try_from_value(v), Err(NeomacsError::InvalidRPCMessage)));
    }
}

#[test]
fn overrunning_read_is_detected() {
    let v = MsgValue::Array(vec![uint(0), uint(1), s("m")]);
    assert!(Message::read_overruns(&v));
    let w = MsgValue::Array(vec![uint(2), s("m"), MsgValue::Array(vec![])]);
    assert!(!Message::read_overruns(&w));
}

#[test]
fn codec_decode_steps() {
    let mut codec = MessageCodec::new();
    let (r, n) = codec.decode_read(ReadOutcome::Complete(request().into_value(), 17));
    assert_eq!(r.unwrap(), Some(request()));
    assert_eq!(n, 17);
    let (r, n) = codec.decode_read(ReadOutcome::UnexpectedEof(rmpv::decode::Error::InvalidMarkerRead(std::io::ErrorKind::UnexpectedEof.into())));
    assert!(r.unwrap().is_none());
    assert_eq!(n, 0);
    let (r, n) = codec.decode_read(ReadOutcome::Complete(uint(5), 1));
    assert!(matches!(r, Err(NeomacsError::InvalidRPCMessage)));
    assert_eq!(n, 0);
    let (r, n) = codec.decode_read(ReadOutcome::Complete(MsgValue::Array(vec![]), 1));
    assert!(matches!(r, Err(NeomacsError::InvalidRPCMessage)));
    assert_eq!(n, 0);
}

#[test]
fn error_response_value() {
    let resp = ErrorResponse::new(ErrorType::UnknownMethod, "Unknown method x").into_response(4);
    assert_eq!(resp.msg_id, 4);
    assert!(resp.result.is_none());
    assert_eq!(
        resp.error.unwrap(),
        MsgValue::Dict(vec![(s("code"), s("UNKNOWN_METHOD")), (s("message"), s("Unknown method x"))])
    );
    assert_eq!(ErrorType::InvalidRequest.code(), "INVALID_REQUEST");
}

#[test]
fn response_constructors() {
    assert_eq!(Response::success(1, None), Response { msg_id: 1, error: None, result: None });
    assert_eq!(Response::error(2, Some(uint(3))), Response { msg_id: 2, error: Some(uint(3)), result: None });
}

#[test]
fn primitive_conversions_roundtrip() {
    assert_eq!(u64::decode_value(42u64.encode_value()).unwrap(), 42);
    assert_eq!(i64::decode_value((-7i64).encode_value()).unwrap(), -7);
    assert_eq!((-7i64).encode_value(), MsgValue::Integer(MsgInteger::NegInt(-7)));
    assert_eq!(7i64.encode_value(), uint(7));
    assert_eq!(String::decode_value("hi".to_string().encode_value()).unwrap(), "hi");
    assert!(bool::decode_value(true.encode_value()).unwrap());
    let v: Vec<u64> = vec![1, 2, 3];
    assert_eq!(Vec::<u64>::decode_value(v.encode_value()).unwrap(), v);
}

#[test]
fn conversion_errors() {
    assert!(matches!(u64::decode_value(MsgValue::Integer(MsgInteger::NegInt(-1))), Err(NeomacsError::MessagePackParse(_))));
    assert!(matches!(i64::decode_value(uint(u64::MAX)), Err(NeomacsError::MessagePackParse(_))));
    assert!(matches!(String::decode_value(MsgValue::String(MsgString::Invalid(vec![0xff]))), Err(NeomacsError::MessagePackParse(_))));
    assert!(matches!(bool::decode_value(MsgValue::Nil), Err(NeomacsError::MessagePackParse(_))));
    assert!(matches!(Vec::<u64>::decode_value(uint(1)), Err(NeomacsError::MessagePackParse(_))));
    assert!(matches!(Vec::<u64>::decode_value(MsgValue::Array(vec![uint(1), s("x")])), Err(NeomacsError::MessagePackParse(_))));
}

#[test]
fn accessors_follow_msgpack_integers() {
    assert_eq!(MsgValue::Integer(MsgInteger::NegInt(5)).as_u64(), Some(5));
    assert_eq!(MsgValue::Integer(MsgInteger::NegInt(-5)).as_u64(), None);
    assert_eq!(uint(u64::MAX).as_i64(), None);
    assert_eq!(uint(3).as_i64(), Some(3));
    assert!(MsgValue::Nil.is_nil());
    assert_eq!(s("a").as_str().unwrap(), "a");
}

#[test]
fn optional_extension_is_recognised() {
    assert!(is_optional(&MsgValue::Ext(0, vec![0xc0])));
    assert!(!is_optional(&MsgValue::Ext(1, vec![0xc0])));
    assert!(!is_optional(&MsgValue::Nil));
}

#[test]
fn request_context_holds_id() {
    assert_eq!(RequestContext::new(8).connection_id, 8);
}
