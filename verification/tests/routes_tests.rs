use neomacs::error::NeomacsError;
use neomacs::msgpack::{MsgString, MsgValue};
use neomacs::rpc::codec::{Message, Notification, Request, Response};
use neomacs::rpc::routes::{Route, Routes};

fn s(t: &str) -> MsgValue {
    MsgValue::String(MsgString::Valid(t.to_string()))
}

fn request(method: &str) -> Message {
    Message::Request(Request { msg_id: 5, method: method.to_string(), params: vec![] })
}

#[test]
fn registered_methods_route_to_their_service() {
    let mut routes: Routes<u32, u32> = Routes::new();
    routes.register_request_handler(&vec!["ping", "SUBSCRIBE"], &1).unwrap();
    routes.register_notification_handler(&vec!["redraw"], &2).unwrap();
    assert_eq!(routes.request_handler("ping"), Some(&1));
    assert_eq!(routes.request_handler("SUBSCRIBE"), Some(&1));
    assert_eq!(routes.notification_handler("redraw"), Some(&2));
    assert_eq!(routes.request_handler("redraw"), None);
    assert!(matches!(routes.route(&request("ping")), Route::Request(&1)));
    let n = Message::Notification(Notification { method: "redraw".to_string(), params: vec![] });
    assert!(matches!(routes.route(&n), Route::Notification(&2)));
}

#[test]
fn clashing_registration_fails_and_keeps_earlier_methods() {
    let mut routes: Routes<u32, u32> = Routes::new();
    routes.register_request_handler(&vec!["ping"], &1).unwrap();
    let r = routes.register_request_handler(&vec!["open", "ping", "close"], &2);
    assert!(matches!(r, Err(NeomacsError::Unhandled(_))));
    assert_eq!(routes.request_handler("open"), Some(&2));
    assert_eq!(routes.request_handler("ping"), Some(&1));
    assert_eq!(routes.request_handler("close"), None);
    // a method may not be both a request and a notification method
    assert!(routes.register_notification_handler(&vec!["ping"], &3).is_err());
    assert_eq!(routes.notification_handler("ping"), None);
    // nor listed twice in one registration
    assert!(routes.register_notification_handler(&vec!["tick", "tick"], &3).is_err());
    assert_eq!(routes.notification_handler("tick"), Some(&3));
}

#[test]
fn unknown_methods_and_responses() {
    let routes: Routes<u32, u32> = Routes::new();
    match routes.route(&request("frobnicate")) {
        Route::UnknownMethod(resp, NeomacsError::RequestError(t)) => {
            assert_eq!(resp.msg_id, 5);
            assert_eq!(resp.result, None);
            assert_eq!(
                resp.error,
                Some(MsgValue::Dict(vec![
                    (s("code"), s("UNKNOWN_METHOD")),
                    (s("message"), s("Unknown method frobnicate")),
                ]))
            );
            assert_eq!(t, "No request handler registered for notification frobnicate");
        }
        other => panic!("unexpected {:?}", other),
    }
    let n = Message::Notification(Notification { method: "tick".to_string(), params: vec![] });
    match routes.route(&n) {
        Route::Unhandled(NeomacsError::RequestError(t)) => {
            assert_eq!(t, "No notification handler registered for notification tick")
        }
        other => panic!("unexpected {:?}", other),
    }
    let r = Message::Response(Response { msg_id: 42, error: None, result: None });
    match routes.route(&r) {
        Route::Unhandled(NeomacsError::RequestError(t)) => {
            assert_eq!(t, "Received an unexpected response message with message id: 42")
        }
        other => panic!("unexpected {:?}", other),
    }
}
