use neomacs::command::{ExternalCommand, Type};
use neomacs::error::NeomacsError;
use neomacs::events::SubscribeRequest;
use neomacs::msgpack::{MsgInteger, MsgString, MsgValue};
use neomacs::rpc::codec::{read_value, write_value, Message, MessageCodec, Request, Response};
use neomacs::rpc::convert::DecodeValue;
use neomacs::rpc::display::display;

fn s(t: &str) -> MsgValue {
    MsgValue::String(MsgString::Valid(t.to_string()))
}

fn parse_text(e: NeomacsError) -> String {
    match e {
        NeomacsError::MessagePackParse(t) => t,
        other => panic!("unexpected {:?}", other),
    }
}

#[test]
fn values_display_as_rmpv_writes_them() {
    assert_eq!(display(&MsgValue::Nil), "nil");
    assert_eq!(display(&MsgValue::Integer(MsgInteger::NegInt(-3))), "-3");
    assert_eq!(display(&MsgValue::F32(0x3fc0_0000)), "1.5");
    assert_eq!(display(&MsgValue::F64(0x4004_0000_0000_0000)), "2.5");
    assert_eq!(display(&s("a\"b")), "\"a\\\"b\"");
    assert_eq!(display(&MsgValue::String(MsgString::Invalid(vec![0xff]))), "[255]");
    assert_eq!(
        display(&MsgValue::Dict(vec![(s("k"), MsgValue::Array(vec![MsgValue::Boolean(true), MsgValue::Nil]))])),
        "{\"k\": [true, nil]}"
    );
    assert_eq!(display(&MsgValue::Ext(0, vec![1, 2])), "[0, [1, 2]]");
}

#[test]
fn decode_errors_quote_the_value() {
    assert_eq!(parse_text(Type::decode_value(MsgValue::Nil).unwrap_err()), "Invalid Type: nil");
    assert_eq!(parse_text(Type::decode_value(s("Widget")).unwrap_err()), "Invalid Type: \"Widget\"");
    assert_eq!(parse_text(u64::decode_value(s("x")).unwrap_err()), "Unable to decode u64 from \"x\"");
    assert_eq!(parse_text(String::decode_value(MsgValue::Boolean(false)).unwrap_err()), "Unable to decode String from false");
    assert_eq!(parse_text(Vec::<u64>::decode_value(MsgValue::Nil).unwrap_err()), "Unable to decode Vec from nil");
    assert_eq!(
        parse_text(Vec::<u64>::decode_value(MsgValue::Array(vec![s("y")])).unwrap_err()),
        "Unable to decode u64 from \"y\""
    );
    let missing = MsgValue::Dict(vec![(s("namespace"), s("ext"))]);
    assert_eq!(
        parse_text(ExternalCommand::decode_value(missing).unwrap_err()),
        "Unable to decode ExternalCommand from {\"namespace\": \"ext\"}"
    );
    let bad_field = MsgValue::Dict(vec![(s("event_name"), MsgValue::Nil)]);
    assert_eq!(parse_text(SubscribeRequest::decode_value(bad_field).unwrap_err()), "Unable to decode String from nil");
}

#[test]
fn responses_unwrap_to_result_or_error() {
    let ok = Response { msg_id: 1, error: None, result: Some(s("r")) };
    assert_eq!(ok.try_unwrap().unwrap(), s("r"));
    let empty = Response { msg_id: 1, error: None, result: None };
    assert_eq!(empty.try_unwrap().unwrap(), MsgValue::Nil);
    let failed = Response { msg_id: 1, error: Some(s("boom")), result: None };
    match failed.try_unwrap() {
        Err(NeomacsError::RequestError(t)) => assert_eq!(t, "\"boom\""),
        other => panic!("unexpected {:?}", other),
    }
}

#[test]
fn written_values_read_back() {
    let v = MsgValue::Array(vec![s("a"), MsgValue::F64(0x4004_0000_0000_0000), MsgValue::Binary(vec![7])]);
    let bytes = write_value(&v);
    assert_eq!(read_value(&bytes).unwrap(), v);
    assert_eq!(write_value(&MsgValue::Nil), vec![0xc0]);
    let msg = || Message::Request(Request { msg_id: 3, method: "m".to_string(), params: vec![] });
    let mut codec = MessageCodec::new();
    let framed = codec.encode_message(msg()).unwrap();
    let (r, n) = codec.decode_bytes(&framed).unwrap();
    assert_eq!(r.unwrap(), Some(msg()));
    assert_eq!(n, framed.len());
}
