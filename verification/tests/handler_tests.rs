use neomacs::daemon::{invalid_request, redraw, tcp_addr, AppState, Event, Mutation, RpcRequest};
use neomacs::buffer::{Buffer, BufferState};
use neomacs::error::NeomacsError;
use neomacs::events::{SubscribeRequest, Subscriptions, SUBSCRIBE};
use neomacs::msgpack::{MsgInteger, MsgString, MsgValue};
use neomacs::ping::PingHandler;
use neomacs::rpc::codec::Request;
use neomacs::rpc::convert::DecodeValue;
use neomacs::rpc::handler::RequestContext;

fn s(t: &str) -> MsgValue {
    MsgValue::String(MsgString::Valid(t.to_string()))
}

fn uint(n: u64) -> MsgValue {
    MsgValue::Integer(MsgInteger::PosInt(n))
}

#[test]
fn ping_echoes_string() {
    let mut h = PingHandler::new();
    let req = Request { msg_id: 5, method: "ping".to_string(), params: vec![s("hello")] };
    let resp = h.handle(RequestContext::new(3), &req).unwrap();
    assert_eq!(resp.msg_id, 5);
    assert!(resp.error.is_none());
    assert_eq!(resp.result.unwrap(), s("Pong! connection id: 3, data: \"hello\""));
    assert_eq!(PingHandler::handled_methods(), vec!["ping"]);
}

#[test]
fn ping_rejects_other_params() {
    let mut h = PingHandler::default();
    let req = Request { msg_id: 6, method: "ping".to_string(), params: vec![uint(1)] };
    let resp = h.handle(RequestContext::new(0), &req).unwrap();
    assert!(resp.result.is_none());
    assert_eq!(
        resp.error.unwrap(),
        MsgValue::Dict(vec![(s("code"), s("INVALID_REQUEST")), (s("message"), s("Ping requires a string param"))])
    );
}

#[test]
fn daemon_ping() {
    let mut h = neomacs::daemon::PingHandler::new();
    let req = Request { msg_id: 1, method: "ping".to_string(), params: vec![s("x")] };
    assert_eq!(h.handle(&req).unwrap().result.unwrap(), s("Pong! data: \"x\""));
    let bad = Request { msg_id: 1, method: "ping".to_string(), params: vec![] };
    assert!(h.handle(&bad).unwrap().error.is_some());
}

#[test]
fn subscribe_request_decoding() {
    let ok = MsgValue::Dict(vec![(s("other"), uint(1)), (s("event_name"), s("saved"))]);
    assert_eq!(SubscribeRequest::decode_value(ok).unwrap().event_name, "saved");
    let last_wins = MsgValue::Dict(vec![(s("event_name"), s("a")), (s("event_name"), s("b"))]);
    assert_eq!(SubscribeRequest::decode_value(last_wins).unwrap().event_name, "b");
    assert!(SubscribeRequest::decode_value(MsgValue::Dict(vec![])).is_err());
    assert!(SubscribeRequest::decode_value(MsgValue::Dict(vec![(uint(1), s("x")), (s("event_name"), s("a"))])).is_err());
    assert!(SubscribeRequest::decode_value(MsgValue::Dict(vec![(s("event_name"), uint(3))])).is_err());
    assert!(SubscribeRequest::decode_value(uint(1)).is_err());
}

#[test]
fn subscriptions_collect_clients() {
    let mut subs = Subscriptions::new();
    assert!(subs.subscribers("saved").is_none());
    subs.subscribe(1, "saved");
    subs.subscribe(2, "saved");
    subs.subscribe(1, "saved");
    subs.subscribe(1, "closed");
    let mut v: Vec<u64> = subs.subscribers("saved").unwrap().iter().copied().collect();
    v.sort();
    assert_eq!(v, vec![1, 2]);
    assert_eq!(subs.subscribers("closed").unwrap().len(), 1);
    assert!(subs.subscribers("closed").unwrap().contains(&1));
    assert_eq!(Subscriptions::handled_methods(), vec![SUBSCRIBE]);
}

#[test]
fn subscription_requests() {
    let mut subs = Subscriptions::new();
    let req = Request {
        msg_id: 7,
        method: SUBSCRIBE.to_string(),
        params: vec![MsgValue::Dict(vec![(s("event_name"), s("saved"))])],
    };
    let resp = subs.handle(RequestContext::new(4), &req).unwrap();
    assert_eq!(resp.result.unwrap(), MsgValue::Dict(vec![(s("status"), s("OK"))]));
    assert_eq!(subs.subscribers("saved").unwrap().iter().copied().collect::<Vec<u64>>(), vec![4]);

    let two = Request { msg_id: 8, method: SUBSCRIBE.to_string(), params: vec![MsgValue::Nil, MsgValue::Nil] };
    let resp = subs.handle(RequestContext::new(4), &two).unwrap();
    assert_eq!(
        resp.error.unwrap(),
        MsgValue::Dict(vec![(s("code"), s("INVALID_REQUEST")), (s("message"), s("subscribe only takes 1 parameter"))])
    );
    let bad = Request { msg_id: 9, method: SUBSCRIBE.to_string(), params: vec![MsgValue::Nil] };
    let resp = subs.handle(RequestContext::new(4), &bad).unwrap();
    assert_eq!(
        resp.error.unwrap(),
        MsgValue::Dict(vec![(s("code"), s("INVALID_REQUEST")), (s("message"), s("Invalid subscribe request"))])
    );
}

#[test]
fn daemon_request_reading() {
    let v = MsgValue::Array(vec![uint(0), s("Shutdown"), MsgValue::Array(vec![]), MsgValue::Nil]);
    let req = RpcRequest::from_value(v).unwrap();
    assert_eq!(req.msg_id, 0);
    assert_eq!(req.method, "Shutdown");
    assert_eq!(Event::from_rpc_request(&req).unwrap(), Event::Shutdown);
    let standard = MsgValue::Array(vec![uint(0), uint(12), s("Shutdown"), MsgValue::Array(vec![])]);
    match RpcRequest::from_value(standard) {
        Err(NeomacsError::RequestError(m)) => assert_eq!(m, "Invalid RPC request"),
        other => panic!("unexpected {:?}", other),
    }
    let unknown = RpcRequest { msg_id: 0, method: "Open".to_string(), params: vec![] };
    match Event::from_rpc_request(&unknown) {
        Err(NeomacsError::RequestError(m)) => assert_eq!(m, "Unknown RPC method Open"),
        other => panic!("unexpected {:?}", other),
    }
    assert!(matches!(invalid_request(), NeomacsError::RequestError(_)));
}

#[test]
fn daemon_state_mutation() {
    let mut buffers = BufferState::default();
    buffers.add_buffer(Buffer::new("a")).unwrap();
    let mut state = AppState::new(buffers);
    assert!(state.apply(Mutation::SwitchBuffer { name: "a".to_string() }).is_ok());
    assert_eq!(state.buffers().current_buffer().name(), "a");
    assert!(state.apply(Mutation::SwitchBuffer { name: "zz".to_string() }).is_err());
    assert_eq!(state.buffers().current_buffer().name(), "a");
}

#[test]
fn daemon_constants() {
    assert_eq!(tcp_addr(), "127.0.0.1:554433");
    redraw();
}

#[test]
fn ping_shows_invalid_text_as_bytes() {
    let mut h = PingHandler::new();
    let req = Request {
        msg_id: 2,
        method: "ping".to_string(),
        params: vec![MsgValue::String(MsgString::Invalid(vec![0xff, 0x41]))],
    };
    let resp = h.handle(RequestContext::new(1), &req).unwrap();
    assert_eq!(resp.result.unwrap(), s("Pong! connection id: 1, data: [255, 65]"));
}
