use neomacs::command::{
    handled_methods, make_context, route, single_param, validate_command_input, CommandContext,
    CommandRegistry, CommandRequest, DispatcherKey, Type, Value,
};
use neomacs::error::NeomacsError;
use neomacs::msgpack::{MsgString, MsgValue};
use neomacs::rpc::codec::Request;
use neomacs::rpc::convert::{DecodeValue, EncodeValue};

fn s(t: &str) -> MsgValue {
    MsgValue::String(MsgString::Valid(t.to_string()))
}

#[test]
fn value_types() {
    assert_eq!(Value::Nil.get_type(), Type::Nil);
    assert_eq!(Value::Integer(3).get_type(), Type::Integer);
    assert_eq!(Value::Float(0).get_type(), Type::Float);
    assert_eq!(Value::String("x".to_string()).get_type(), Type::String);
    assert_eq!(Value::Optional(None).get_type(), Type::Optional);
    assert_eq!(Value::List(vec![]).get_type(), Type::List);
    assert_eq!(Value::Dict(vec![]).get_type(), Type::Dict);
    assert_eq!(Value::Boolean(true).get_type(), Type::Boolean);
}

#[test]
fn validate_accepts_matching_input() {
    let expected = vec![Type::Integer, Type::String];
    let input = vec![Value::Integer(1), Value::String("a".to_string())];
    let out = validate_command_input("cmd", &expected, input).unwrap();
    assert_eq!(out.len(), 2);
}

#[test]
fn validate_rejects_wrong_length_and_type() {
    let expected = vec![Type::Integer];
    match validate_command_input("cmd", &expected, vec![]) {
        Err(NeomacsError::InvalidCommandInput { command, expected_input, input }) => {
            assert_eq!(command, "cmd");
            assert_eq!(expected_input, vec![Type::Integer]);
            assert!(input.is_empty());
        }
        other => panic!("unexpected {:?}", other),
    }
    match validate_command_input("cmd", &expected, vec![Value::Nil]) {
        Err(NeomacsError::InvalidCommandInput { input, .. }) => assert_eq!(input, vec![Value::Nil]),
        other => panic!("unexpected {:?}", other),
    }
}

#[test]
fn type_decoding() {
    assert_eq!(Type::decode_value(s("Integer")).unwrap(), Type::Integer);
    assert_eq!(Type::decode_value(s("Map")).unwrap(), Type::Dict);
    assert_eq!(Type::decode_value(s("Optional")).unwrap(), Type::Optional);
    assert!(matches!(Type::decode_value(s("Widget")), Err(NeomacsError::MessagePackParse(_))));
    assert!(matches!(Type::decode_value(MsgValue::Nil), Err(NeomacsError::MessagePackParse(_))));
    let types = Vec::<Type>::decode_value(MsgValue::Array(vec![s("Nil"), s("List")])).unwrap();
    assert_eq!(types, vec![Type::Nil, Type::List]);
}

#[test]
fn context_encoding() {
    let ctx = make_context("save");
    assert_eq!(ctx.name, "save");
    assert_eq!(CommandContext { name: "x".to_string() }.encode_value(), MsgValue::Dict(vec![(s("name"), s("x"))]));
}

#[test]
fn registry_register_and_get() {
    let mut reg: CommandRegistry<u32> = CommandRegistry::new();
    reg.register("neomacs", "save", 1);
    reg.register("ext", "save", 2);
    assert_eq!(reg.get("neomacs", "save"), Some(&1));
    assert_eq!(reg.get("ext", "save"), Some(&2));
    reg.register("neomacs", "save", 3);
    assert_eq!(reg.get("neomacs", "save"), Some(&3));
    assert_eq!(reg.get("neomacs", "load"), None);
}

#[test]
fn dispatcher_key() {
    let k = DispatcherKey::new("ns", "n");
    assert!(k.names("ns", "n"));
    assert!(!k.names("ns", "m"));
}

#[test]
fn routing() {
    assert_eq!(route("defcommand").unwrap(), CommandRequest::Defcommand);
    assert_eq!(route("invoke").unwrap(), CommandRequest::Invoke);
    assert_eq!(route("invoke_interactively").unwrap(), CommandRequest::InvokeInteractively);
    assert!(matches!(route("invoke_cmd"), Err(NeomacsError::InvalidRPCMessage)));
    assert_eq!(handled_methods(), vec!["defcommand", "invoke_cmd", "invoke_cmd_interactively"]);
}

#[test]
fn single_param_check() {
    let ok = Request { msg_id: 1, method: "invoke".to_string(), params: vec![MsgValue::Nil] };
    assert!(single_param(&ok).unwrap().is_nil());
    let bad = Request { msg_id: 1, method: "invoke".to_string(), params: vec![] };
    assert!(matches!(single_param(&bad), Err(NeomacsError::InvalidRPCMessage)));
}
