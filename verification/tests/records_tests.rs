use neomacs::buffer::Buffer;
use neomacs::command::{
    make_context, CommandRegistry, ComputeInputsRequest, ComputeInputsResponse, ExternalCommand,
    InvokeRequest, RpcInvokeInteractivelyRequest, RpcInvokeRequest, Type,
};
use neomacs::error::NeomacsError;
use neomacs::msgpack::{MsgInteger, MsgString, MsgValue};
use neomacs::rpc::codec::Response;
use neomacs::rpc::convert::{DecodeValue, EncodeValue};

fn s(t: &str) -> MsgValue {
    MsgValue::String(MsgString::Valid(t.to_string()))
}

fn uint(n: u64) -> MsgValue {
    MsgValue::Integer(MsgInteger::PosInt(n))
}

fn command_map(entries: Vec<(MsgValue, MsgValue)>) -> MsgValue {
    MsgValue::Dict(entries)
}

#[test]
fn external_command_decodes_all_fields() {
    let v = command_map(vec![
        (s("namespace"), s("ext")),
        (s("name"), s("shout")),
        (s("param_types"), MsgValue::Array(vec![s("String"), s("Integer")])),
        (s("return_type"), s("Nil")),
    ]);
    let cmd = ExternalCommand::decode_value(v).unwrap();
    assert_eq!(cmd.namespace, "ext");
    assert_eq!(cmd.name, "shout");
    assert_eq!(cmd.param_types, vec![Type::String, Type::Integer]);
    assert_eq!(cmd.return_type, Type::Nil);
}

#[test]
fn external_command_last_entry_wins_and_extra_keys_are_ignored() {
    let v = command_map(vec![
        (s("name"), s("first")),
        (s("namespace"), s("ext")),
        (s("colour"), uint(3)),
        (s("param_types"), MsgValue::Array(vec![])),
        (s("return_type"), s("Map")),
        (s("name"), s("second")),
    ]);
    let cmd = ExternalCommand::decode_value(v).unwrap();
    assert_eq!(cmd.name, "second");
    assert_eq!(cmd.return_type, Type::Dict);
    assert!(cmd.param_types.is_empty());
}

#[test]
fn external_command_rejections() {
    let missing = command_map(vec![(s("namespace"), s("ext")), (s("name"), s("x"))]);
    assert!(matches!(ExternalCommand::decode_value(missing), Err(NeomacsError::MessagePackParse(_))));
    let bad_type = command_map(vec![
        (s("namespace"), s("ext")),
        (s("name"), s("x")),
        (s("param_types"), MsgValue::Array(vec![s("Widget")])),
        (s("return_type"), s("Nil")),
    ]);
    assert!(matches!(ExternalCommand::decode_value(bad_type), Err(NeomacsError::MessagePackParse(_))));
    let bad_key = command_map(vec![(uint(1), s("ext"))]);
    assert!(matches!(ExternalCommand::decode_value(bad_key), Err(NeomacsError::MessagePackParse(_))));
    assert!(ExternalCommand::decode_value(MsgValue::Array(vec![])).is_err());
    // an earlier duplicate that does not read fails the whole record
    let bad_duplicate = command_map(vec![
        (s("namespace"), uint(1)),
        (s("namespace"), s("ext")),
        (s("name"), s("x")),
        (s("param_types"), MsgValue::Array(vec![])),
        (s("return_type"), s("Nil")),
    ]);
    assert!(ExternalCommand::decode_value(bad_duplicate).is_err());
}

#[test]
fn invoke_requests_decode() {
    let v = command_map(vec![(s("namespace"), s("neomacs")), (s("name"), s("save"))]);
    let req = RpcInvokeInteractivelyRequest::decode_value(v).unwrap();
    assert_eq!(req.namespace, "neomacs");
    assert_eq!(req.name, "save");
    assert!(RpcInvokeInteractivelyRequest::decode_value(command_map(vec![(s("name"), s("save"))])).is_err());

    let v = command_map(vec![
        (s("namespace"), s("neomacs")),
        (s("name"), s("goto")),
        (s("params"), MsgValue::Array(vec![uint(4), s("x")])),
    ]);
    let req = RpcInvokeRequest::<MsgValue>::decode_value(v).unwrap();
    assert_eq!(req.name, "goto");
    assert_eq!(req.params, vec![uint(4), s("x")]);
    let v = command_map(vec![
        (s("namespace"), s("neomacs")),
        (s("name"), s("goto")),
        (s("params"), uint(4)),
    ]);
    assert!(RpcInvokeRequest::<MsgValue>::decode_value(v).is_err());
    let v = command_map(vec![(s("params"), MsgValue::Array(vec![uint(1), uint(2)]))]);
    let resp = ComputeInputsResponse::<u64>::decode_value(v).unwrap();
    assert_eq!(resp.params, vec![1, 2]);
}

#[test]
fn outgoing_command_requests() {
    let req = ComputeInputsRequest { command: "shout".to_string(), context: make_context("shout") };
    let v = req.encode_value();
    let expected = command_map(vec![
        (s("command"), s("shout")),
        (s("context"), command_map(vec![(s("name"), s("shout"))])),
    ]);
    assert_eq!(v, expected);
    let req = InvokeRequest { command: "shout".to_string(), params: vec![uint(1)] };
    assert_eq!(
        req.into_value(),
        command_map(vec![(s("command"), s("shout")), (s("params"), MsgValue::Array(vec![uint(1)]))])
    );
}

#[test]
fn status_response() {
    let r = Response::success_with_status(9, "OK");
    assert_eq!(r.msg_id, 9);
    assert_eq!(r.error, None);
    assert_eq!(r.result, Some(command_map(vec![(s("status"), s("OK"))])));
}

#[test]
fn registry_lookup_names_missing_command() {
    let mut reg: CommandRegistry<u32> = CommandRegistry::new();
    reg.register("neomacs", "save", 1);
    assert_eq!(*reg.lookup("neomacs", "save").unwrap(), 1);
    match reg.lookup("neomacs", "quit") {
        Err(NeomacsError::DoesNotExist(t)) => assert_eq!(t, "Command quit"),
        other => panic!("unexpected {:?}", other),
    }
}

#[test]
fn visiting_reads_utf8_contents() {
    let now = std::time::SystemTime::now();
    let path = std::path::PathBuf::from("/tmp/notes.txt");
    let b = Buffer::visiting(path.clone(), Some("héllo\n".as_bytes().to_vec()), now).unwrap();
    assert_eq!(b.name(), "notes.txt");
    assert_eq!(b.contents().to_string(), "héllo\n");
    assert_eq!(b.len_chars(), 6);
    let empty = Buffer::visiting(std::path::PathBuf::from("dir/new.txt"), None, now).unwrap();
    assert_eq!(empty.name(), "new.txt");
    assert_eq!(empty.len_chars(), 0);
    match Buffer::visiting(path, Some(vec![b'a', 0xff, b'b']), now) {
        Err(NeomacsError::IO(e)) => assert_eq!(e.kind(), std::io::ErrorKind::InvalidData),
        other => panic!("unexpected {:?}", other.map(|b| b.name().to_string())),
    }
    assert!(matches!(
        Buffer::visiting(std::path::PathBuf::from("/tmp/.."), None, now),
        Err(NeomacsError::Unhandled(_))
    ));
}
