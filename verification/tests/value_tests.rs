use neomacs::command::Value;
use neomacs::error::NeomacsError;
use neomacs::msgpack::{MsgInteger, MsgString, MsgValue};
use neomacs::rpc::codec::{read_value, write_value};
use neomacs::rpc::convert::EncodeValue;
use neomacs::rpc::extensions::{decode_optional, encode_optional, is_optional, EXTENSION_TYPE_OPTIONAL};

fn widen(bits: u32) -> u64 {
    (f32::from_bits(bits) as f64).to_bits()
}

fn text(s: &str) -> MsgValue {
    MsgValue::String(MsgString::Valid(s.to_string()))
}

fn optional_of(inner: &MsgValue) -> MsgValue {
    MsgValue::Ext(EXTENSION_TYPE_OPTIONAL, write_value(inner))
}

#[test]
fn written_bytes_read_back_whatever_follows() {
    let v = MsgValue::Array(vec![text("a"), MsgValue::Integer(MsgInteger::NegInt(-3)), MsgValue::Nil]);
    let bytes = write_value(&v);
    let mut longer = bytes.clone();
    longer.extend_from_slice(&[0xc0, 0x01]);
    assert_eq!(read_value(&longer).unwrap(), v);
    for k in 0..bytes.len() {
        assert!(read_value(&bytes[..k]).is_err());
    }
}

#[test]
fn optional_values_are_written_as_extensions() {
    let some = encode_optional(&Some(7u64));
    assert!(is_optional(&some));
    assert_eq!(some, MsgValue::Ext(EXTENSION_TYPE_OPTIONAL, vec![0x07]));
    let none = encode_optional::<u64>(&None);
    assert_eq!(none, MsgValue::Ext(EXTENSION_TYPE_OPTIONAL, vec![0xc0]));
}

#[test]
fn optional_values_read_back() {
    assert_eq!(decode_optional::<u64>(&encode_optional(&Some(7u64))).unwrap(), Some(7));
    assert_eq!(decode_optional::<u64>(&encode_optional::<u64>(&None)).unwrap(), None);
    assert_eq!(decode_optional::<String>(&optional_of(&text("x"))).unwrap(), Some("x".to_string()));
}

#[test]
fn optional_value_errors() {
    match decode_optional::<u64>(&MsgValue::Nil) {
        Err(NeomacsError::MessagePackParse(m)) => assert_eq!(m, "Invalid optional value: nil"),
        other => panic!("unexpected {:?}", other),
    }
    match decode_optional::<u64>(&MsgValue::Ext(5, vec![1])) {
        Err(NeomacsError::MessagePackParse(m)) => assert_eq!(m, "Invalid optional value: [5, [1]]"),
        other => panic!("unexpected {:?}", other),
    }
    assert!(matches!(
        decode_optional::<u64>(&MsgValue::Ext(EXTENSION_TYPE_OPTIONAL, vec![])),
        Err(NeomacsError::MessagePackDecode(_))
    ));
    assert!(matches!(
        decode_optional::<u64>(&optional_of(&text("x"))),
        Err(NeomacsError::MessagePackParse(_))
    ));
}

#[test]
fn command_values_are_written() {
    assert_eq!(Value::Float(0x3ff8_0000_0000_0000).encode_value(), MsgValue::F64(0x3ff8_0000_0000_0000));
    assert_eq!(Value::Integer(-2).encode_value(), MsgValue::Integer(MsgInteger::NegInt(-2)));
    assert_eq!(Value::Integer(2).encode_value(), MsgValue::Integer(MsgInteger::PosInt(2)));
    assert_eq!(
        Value::Optional(Some(Box::new(Value::Boolean(true)))).encode_value(),
        MsgValue::Ext(EXTENSION_TYPE_OPTIONAL, vec![0xc3])
    );
    assert_eq!(Value::Optional(None).encode_value(), MsgValue::Ext(EXTENSION_TYPE_OPTIONAL, vec![0xc0]));
    assert_eq!(
        Value::Dict(vec![(Value::String("k".to_string()), Value::List(vec![Value::Nil]))]).encode_value(),
        MsgValue::Dict(vec![(text("k"), MsgValue::Array(vec![MsgValue::Nil]))])
    );
}

#[test]
fn command_values_read_back() {
    let x = Value::Dict(vec![
        (Value::String("a".to_string()), Value::List(vec![Value::Integer(-1), Value::Float(0x4000_0000_0000_0000)])),
        (Value::Nil, Value::Optional(Some(Box::new(Value::Optional(None))))),
    ]);
    assert_eq!(Value::decode_value(x.encode_value(), &widen).unwrap(), x);
}

#[test]
fn single_floats_are_widened() {
    let r = Value::decode_value(MsgValue::F32(1.5f32.to_bits()), &widen).unwrap();
    assert_eq!(r, Value::Float(1.5f64.to_bits()));
}

#[test]
fn command_value_errors() {
    match Value::decode_value(MsgValue::Binary(vec![1, 2]), &widen) {
        Err(NeomacsError::MessagePackParse(m)) => assert_eq!(m, "Invalid command input value: [1, 2]"),
        other => panic!("unexpected {:?}", other),
    }
    let list = MsgValue::Array(vec![MsgValue::Nil, MsgValue::Ext(3, vec![9]), MsgValue::Binary(vec![])]);
    match Value::decode_value(list, &widen) {
        Err(NeomacsError::MessagePackParse(m)) => assert_eq!(m, "Invalid command input value: [3, [9]]"),
        other => panic!("unexpected {:?}", other),
    }
    assert!(matches!(
        Value::decode_value(MsgValue::Ext(EXTENSION_TYPE_OPTIONAL, vec![0xd9]), &widen),
        Err(NeomacsError::MessagePackDecode(_))
    ));
}

#[test]
fn values_that_cannot_be_read_are_found_first() {
    let big = MsgValue::Integer(MsgInteger::PosInt(u64::MAX));
    assert!(Value::decode_value_checked(big, &widen).is_none());
    let bad = MsgValue::String(MsgString::Invalid(vec![0xff]));
    assert!(Value::decode_value_checked(MsgValue::Array(vec![MsgValue::Nil, bad]), &widen).is_none());
    let first_error = MsgValue::Array(vec![MsgValue::Binary(vec![]), MsgValue::String(MsgString::Invalid(vec![0xff]))]);
    assert!(matches!(
        Value::decode_value_checked(first_error, &widen),
        Some(Err(NeomacsError::MessagePackParse(_)))
    ));
    let fine = MsgValue::Integer(MsgInteger::PosInt(5));
    assert_eq!(Value::decode_value_checked(fine, &widen).unwrap().unwrap(), Value::Integer(5));
}

#[test]
fn an_optional_nil_reads_back_as_absent() {
    let x = Value::Optional(Some(Box::new(Value::Nil)));
    assert_eq!(x.encode_value(), Value::Optional(None).encode_value());
    assert_eq!(Value::decode_value(x.encode_value(), &widen).unwrap(), Value::Optional(None));
}
