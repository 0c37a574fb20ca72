use neomacs::error::NeomacsError;
use neomacs::msgpack::{MsgInteger, MsgString, MsgValue};
use neomacs::rpc::codec::{read_value, Message, MessageCodec, Request};

fn to_rmpv(value: &MsgValue) -> rmpv::Value {
    match value {
        MsgValue::Nil => rmpv::Value::Nil,
        MsgValue::Boolean(b) => rmpv::Value::Boolean(*b),
        MsgValue::Integer(MsgInteger::PosInt(u)) => rmpv::Value::from(*u),
        MsgValue::Integer(MsgInteger::NegInt(i)) => rmpv::Value::from(*i),
        MsgValue::F32(b) => rmpv::Value::F32(f32::from_bits(*b)),
        MsgValue::F64(b) => rmpv::Value::F64(f64::from_bits(*b)),
        MsgValue::String(MsgString::Valid(s)) => rmpv::Value::String(s.clone().into()),
        MsgValue::String(MsgString::Invalid(_)) => panic!("not used here"),
        MsgValue::Binary(b) => rmpv::Value::Binary(b.clone()),
        MsgValue::Array(a) => rmpv::Value::Array(a.iter().map(to_rmpv).collect()),
        MsgValue::Dict(m) => rmpv::Value::Map(m.iter().map(|(k, v)| (to_rmpv(k), to_rmpv(v))).collect()),
        MsgValue::Ext(t, d) => rmpv::Value::Ext(*t, d.clone()),
    }
}

/// One decoding step over the bytes received so far.
fn decode_step(codec: &mut MessageCodec, bytes: &[u8]) -> (Result<Option<Message>, NeomacsError>, usize) {
    codec.decode_bytes(bytes).expect("a step that can be taken")
}

fn message() -> Message {
    Message::Request(Request {
        msg_id: 123,
        method: "foobar".to_string(),
        params: vec![MsgValue::String(MsgString::Valid("baz".to_string()))],
    })
}

fn message_bytes() -> Vec<u8> {
    let mut out = Vec::new();
    rmpv::encode::write_value(&mut out, &to_rmpv(&message().into_value())).unwrap();
    out
}

#[test]
fn test_encoder() {
    let written = MessageCodec::new().encode_message(message()).unwrap();
    assert_eq!(written, message_bytes());
    let read = rmpv::decode::read_value(&mut &written[..]).unwrap();
    let expected = rmpv::Value::Array(vec![
        rmpv::Value::from(0u64),
        rmpv::Value::from(123u64),
        rmpv::Value::from("foobar"),
        rmpv::Value::Array(vec![rmpv::Value::from("baz")]),
    ]);
    assert_eq!(read, expected);
}

#[test]
fn test_decode_valid_data() {
    let bytes = message_bytes();
    let mut codec = MessageCodec::new();
    let (r, n) = decode_step(&mut codec, &bytes);
    assert_eq!(r.unwrap(), Some(message()));
    assert_eq!(n, bytes.len());
}

#[test]
fn test_decode_partial_data() {
    let bytes = message_bytes();
    let mut codec = MessageCodec::new();
    let (r, n) = decode_step(&mut codec, &bytes[0..2]);
    assert_eq!(r.unwrap(), None);
    assert_eq!(n, 0);
    let (r, n) = decode_step(&mut codec, &bytes);
    assert_eq!(r.unwrap(), Some(message()));
    assert_eq!(n, bytes.len());
}

#[test]
fn test_decode_overflowing_data() {
    let mut bytes = message_bytes();
    let len = bytes.len();
    bytes.extend_from_slice(b"more bytes");
    let mut codec = MessageCodec::new();
    let (r, n) = decode_step(&mut codec, &bytes);
    assert_eq!(r.unwrap(), Some(message()));
    assert_eq!(n, len);
}

#[test]
fn test_decode_invalid_data() {
    let mut codec = MessageCodec::new();
    let (r, n) = decode_step(&mut codec, b"more bytes");
    assert!(matches!(r, Err(NeomacsError::InvalidRPCMessage)));
    assert_eq!(n, 0);
}

#[test]
fn overrunning_message_cannot_be_decoded() {
    let v = MsgValue::Array(vec![
        MsgValue::Integer(MsgInteger::PosInt(0)),
        MsgValue::Integer(MsgInteger::PosInt(1)),
        MsgValue::String(MsgString::Valid("m".to_string())),
    ]);
    let mut bytes = Vec::new();
    rmpv::encode::write_value(&mut bytes, &to_rmpv(&v)).unwrap();
    let mut codec = MessageCodec::new();
    assert!(codec.decode_bytes(&bytes).is_none());
}

#[test]
fn values_read_from_the_front_of_bytes() {
    let mut bytes = message_bytes();
    bytes.extend_from_slice(&[0xc0]);
    assert_eq!(read_value(&bytes).unwrap(), message().into_value());
    assert!(read_value(&[0x92, 0x01]).is_err());
    assert_eq!(read_value(&[0xca, 0x3f, 0x80, 0x00, 0x00]).unwrap(), MsgValue::F32(0x3f80_0000));
    assert_eq!(read_value(&[0xa2, 0xff, 0x41]).unwrap(), MsgValue::String(MsgString::Invalid(vec![0xff, 0x41])));
    assert_eq!(read_value(&[0xd0, 0xfb]).unwrap(), MsgValue::Integer(MsgInteger::NegInt(-5)));
}

#[test]
fn daemon_request_from_datagram_bytes() {
    let v = MsgValue::Array(vec![
        MsgValue::Integer(MsgInteger::PosInt(0)),
        MsgValue::String(MsgString::Valid("Shutdown".to_string())),
        MsgValue::Array(vec![]),
        MsgValue::Nil,
    ]);
    let mut bytes = Vec::new();
    rmpv::encode::write_value(&mut bytes, &to_rmpv(&v)).unwrap();
    let req = neomacs::daemon::RpcRequest::from_bytes(&bytes).unwrap();
    assert_eq!(req.method, "Shutdown");
    assert_eq!(req.msg_id, 0);
    assert!(matches!(
        neomacs::daemon::RpcRequest::from_bytes(&bytes[..3]),
        Err(NeomacsError::MessagePackDecode(_))
    ));
    assert!(matches!(
        neomacs::daemon::RpcRequest::from_bytes(&[0xc0]),
        Err(NeomacsError::RequestError(_))
    ));
}

#[test]
fn encoded_message_decodes_whatever_follows() {
    let mut codec = MessageCodec::new();
    let framed = codec.encode_message(message()).unwrap();
    let mut stream = framed.clone();
    stream.extend_from_slice(&[0x93, 0x02]);
    let (r, n) = decode_step(&mut codec, &stream);
    assert_eq!(r.unwrap(), Some(message()));
    assert_eq!(n, framed.len());
    for k in 0..framed.len() {
        let (r, n) = decode_step(&mut codec, &framed[..k]);
        assert_eq!(r.unwrap(), None);
        assert_eq!(n, 0);
    }
}
