//! Event subscriptions: which clients want to hear of which events, and the
//! `SUBSCRIBE` request by which a client asks for one.

use crate::error::NeomacsError;
use crate::keyed::{has_key, keys_unique, lemma_push, lemma_to_map_dom, lemma_to_map_val, lemma_update, to_map};
use crate::msgpack::{spec_as_str, MsgString, MsgValue};
use crate::rpc::codec::{is_error_value, ErrorResponse, ErrorType, Request, Response};
use crate::rpc::convert::{decode_error, decode_error_text, DecodeValue};
use crate::rpc::handler::RequestContext;
use crate::rpc::record::{field_decodes, last_field};
use crate::text::str_eq;
use std::collections::HashSet;
use vstd::prelude::*;
use vstd::string::*;

verus! {

/// The method of the subscription request.
pub const SUBSCRIBE: &'static str = "SUBSCRIBE";

/// Whether every key of `m` is a string, and every value under `name` a string.
pub open spec fn fields_readable(m: Seq<(MsgValue, MsgValue)>, name: Seq<char>) -> bool {
    forall|i: int| 0 <= i < m.len() ==> (spec_as_str(#[trigger] m[i].0) matches Some(k)
        && (k == name ==> spec_as_str(m[i].1) is Some))
}

/// A client's request to hear of an event.
#[derive(Debug)]
pub struct SubscribeRequest {
    pub event_name: String,
}

impl DecodeValue for SubscribeRequest {
    open spec fn decodes(value: MsgValue) -> bool {
        value matches MsgValue::Dict(m) && fields_readable(m@, "event_name"@) && last_field(m@, "event_name"@) is Some
    }

    open spec fn decodes_to(value: MsgValue, x: SubscribeRequest) -> bool {
        value matches MsgValue::Dict(m) && last_field(m@, "event_name"@) matches Some(v)
            && spec_as_str(v) == Some(x.event_name@)
    }

    fn decode_value(value: MsgValue) -> (r: Result<SubscribeRequest, NeomacsError>) {
        SubscribeRequest::read(&value)
    }
}

impl SubscribeRequest {
    /// Reads a map whose keys are all strings and which has the key
    /// `event_name`, under which the last entry is a string.
    pub fn read(value: &MsgValue) -> (r: Result<SubscribeRequest, NeomacsError>)
        ensures
            r is Ok <==> Self::decodes(*value),
            r matches Ok(x) ==> Self::decodes_to(*value, x),
            r matches Err(e) ==> e is MessagePackParse,
            (!(*value is Dict) || (*value matches MsgValue::Dict(m) && field_decodes::<String>(m@, "event_name"@)))
                ==> (r matches Err(NeomacsError::MessagePackParse(t)) ==> t@ == decode_error_text("SubscribeRequest"@, *value)),
    {
        proof { reveal_strlit("event_name"); }
        let m = match value {
            MsgValue::Dict(m) => m,
            _ => return Err(decode_error("SubscribeRequest", value)),
        };
        let ghost orig = m@;
        let ghost name = "event_name"@;
        let mut event_name: Option<String> = None;
        let mut i: usize = 0;
        while i < m.len()
            invariant
                *value matches MsgValue::Dict(v) && v@ == orig,
                m@ == orig,
                name == "event_name"@,
                i <= orig.len(),
                fields_readable(orig.subrange(0, i as int), name),
                match last_field(orig.subrange(0, i as int), name) {
                    Some(v) => event_name matches Some(s) && spec_as_str(v) == Some(s@),
                    None => event_name is None,
                },
            decreases orig.len() - i,
        {
            assert(orig.subrange(0, i + 1).drop_last() =~= orig.subrange(0, i as int));
            assert(orig.subrange(0, i + 1).last() == orig[i as int]);
            let key = match &m[i].0 {
                MsgValue::String(MsgString::Valid(key)) => key,
                _ => {
                    assert(!fields_readable(orig, name)) by {
                        assert(spec_as_str(orig[i as int].0) is None);
                    }
                    return Err(decode_error("SubscribeRequest", value));
                },
            };
            if str_eq(key.as_str(), "event_name") {
                match &m[i].1 {
                    MsgValue::String(MsgString::Valid(s)) => event_name = Some(s.clone()),
                    other => {
                        assert(!fields_readable(orig, name)) by {
                            assert(spec_as_str(orig[i as int].1) is None);
                        }
                        assert(!field_decodes::<String>(orig, name)) by {
                            assert(spec_as_str(orig[i as int].0) == Some(name));
                        }
                        return Err(decode_error("String", other));
                    },
                }
            }
            i += 1;
            proof {
                assert forall|j: int| 0 <= j < i implies (spec_as_str(#[trigger] orig.subrange(0, i as int)[j].0) matches Some(kk)
                    && (kk == name ==> spec_as_str(orig.subrange(0, i as int)[j].1) is Some)) by {
                    if j < i - 1 {
                        assert(orig.subrange(0, i as int)[j] == orig.subrange(0, i - 1)[j]);
                    }
                }
            }
        }
        assert(orig.subrange(0, i as int) =~= orig);
        match event_name {
            Some(event_name) => Ok(SubscribeRequest { event_name }),
            None => Err(decode_error("SubscribeRequest", value)),
        }
    }
}

/// The key of a subscription entry: the event's name.
pub open spec fn sub_key(e: (String, HashSet<u64>)) -> Seq<char> {
    e.0@
}

/// `subs` with `client` added to the subscribers of `event`.
pub open spec fn with_subscriber(subs: Map<Seq<char>, Set<u64>>, event: Seq<char>, client: u64) -> Map<Seq<char>, Set<u64>> {
    subs.insert(event, if subs.dom().contains(event) { subs[event].insert(client) } else { set![client] })
}

/// Subscribing a client to an event a second time changes nothing, and
/// subscriptions to different events, or of different clients, can come in
/// either order.
pub proof fn law_subscribe_idempotent_and_commutative(
    subs: Map<Seq<char>, Set<u64>>,
    e1: Seq<char>,
    c1: u64,
    e2: Seq<char>,
    c2: u64,
)
    ensures
        with_subscriber(with_subscriber(subs, e1, c1), e1, c1) == with_subscriber(subs, e1, c1),
        with_subscriber(with_subscriber(subs, e1, c1), e2, c2) == with_subscriber(with_subscriber(subs, e2, c2), e1, c1),
{
    let once = with_subscriber(subs, e1, c1);
    assert(once[e1].insert(c1) =~= once[e1]);
    assert(with_subscriber(once, e1, c1) =~= once);
    let a = with_subscriber(once, e2, c2);
    let b = with_subscriber(with_subscriber(subs, e2, c2), e1, c1);
    if e1 == e2 {
        assert(a[e1] =~= b[e1]);
    }
    assert(a =~= b);
}

/// For each event, the set of clients that asked to hear of it.
#[derive(Debug)]
pub struct Subscriptions {
    entries: Vec<(String, HashSet<u64>)>,
}

impl Subscriptions {
    /// Each event's subscribers.
    pub closed spec fn spec_subscribers(self) -> Map<Seq<char>, Set<u64>> {
        to_map(self.entries@, |e: (String, HashSet<u64>)| sub_key(e)).map_values(|e: (String, HashSet<u64>)| e.1@)
    }

    /// No event is listed twice.
    pub closed spec fn wf(self) -> bool {
        keys_unique(self.entries@, |e: (String, HashSet<u64>)| sub_key(e))
    }

    /// No subscriptions.
    pub fn new() -> (s: Self)
        ensures
            s.wf(),
            s.spec_subscribers() == Map::<Seq<char>, Set<u64>>::empty(),
    {
        let s = Self { entries: Vec::new() };
        assert(s.spec_subscribers() =~= Map::empty());
        s
    }

    fn find(&self, event_name: &str) -> (r: Option<usize>)
        requires
            self.wf(),
        ensures
            match r {
                Some(i) => i < self.entries@.len() && sub_key(self.entries@[i as int]) == event_name@,
                None => !has_key(self.entries@, |e: (String, HashSet<u64>)| sub_key(e), event_name@),
            },
    {
        let mut i: usize = 0;
        while i < self.entries.len()
            invariant
                i <= self.entries@.len(),
                forall|j: int| 0 <= j < i ==> sub_key(#[trigger] self.entries@[j]) != event_name@,
            decreases self.entries@.len() - i,
        {
            if str_eq(self.entries[i].0.as_str(), event_name) {
                return Some(i);
            }
            i += 1;
        }
        proof {
            let f = |e: (String, HashSet<u64>)| sub_key(e);
            if has_key(self.entries@, f, event_name@) {
                let j = choose|j: int| 0 <= j < self.entries@.len() && f(#[trigger] self.entries@[j]) == event_name@;
                assert(sub_key(self.entries@[j]) == event_name@);
            }
        }
        None
    }

    /// Adds `client_id` to the subscribers of `event_name`.
    pub fn subscribe(&mut self, client_id: u64, event_name: &str)
        requires
            old(self).wf(),
        ensures
            final(self).wf(),
            final(self).spec_subscribers() == with_subscriber(old(self).spec_subscribers(), event_name@, client_id),
    {
        broadcast use vstd::std_specs::hash::group_hash_axioms;
        let ghost f = |e: (String, HashSet<u64>)| sub_key(e);
        let ghost s0 = self.entries@;
        match self.find(event_name) {
            Some(i) => {
                proof { lemma_to_map_val(s0, f, i as int); }
                let (name, mut clients) = self.entries.remove(i);
                let ghost old_clients = clients@;
                clients.insert(client_id);
                let ghost entry = (name, clients);
                self.entries.insert(i, (name, clients));
                proof {
                    assert(self.entries@ =~= s0.update(i as int, entry));
                    lemma_update(s0, f, i as int, entry);
                    assert(entry.1@ == old_clients.insert(client_id));
                    assert(self.spec_subscribers() =~= with_subscriber(old(self).spec_subscribers(), event_name@, client_id));
                }
            },
            None => {
                let mut clients: HashSet<u64> = HashSet::new();
                clients.insert(client_id);
                let name = String::from_str(event_name);
                let ghost entry = (name, clients);
                self.entries.push((name, clients));
                proof {
                    lemma_to_map_dom(s0, f, event_name@);
                    lemma_push(s0, f, entry);
                    assert(entry.1@ =~= set![client_id]);
                    assert(self.spec_subscribers() =~= with_subscriber(old(self).spec_subscribers(), event_name@, client_id));
                }
            },
        }
    }

    /// The set of clients subscribed to `event_name`, if any ever subscribed.
    pub fn subscribers(&self, event_name: &str) -> (r: Option<&HashSet<u64>>)
        requires
            self.wf(),
        ensures
            self.spec_subscribers().dom().contains(event_name@) ==> (r matches Some(v)
                && v@ == self.spec_subscribers()[event_name@]),
            !self.spec_subscribers().dom().contains(event_name@) ==> r is None,
    {
        let ghost f = |e: (String, HashSet<u64>)| sub_key(e);
        proof { lemma_to_map_dom(self.entries@, f, event_name@); }
        match self.find(event_name) {
            Some(i) => {
                proof { lemma_to_map_val(self.entries@, f, i as int); }
                Some(&self.entries[i].1)
            },
            None => None,
        }
    }

    /// The methods that the subscription handler answers.
    pub fn handled_methods() -> (r: Vec<&'static str>)
        ensures
            r@.len() == 1,
            r@[0]@ == SUBSCRIBE@,
    {
        let mut v: Vec<&'static str> = Vec::new();
        v.push(SUBSCRIBE);
        v
    }

    /// Answers a subscription request from the connection in `context`: a
    /// request with one parameter that reads as a `SubscribeRequest`
    /// subscribes the connection to the event it names and is answered
    /// `{"status": "OK"}`; any other request is answered with an
    /// `INVALID_REQUEST` error and subscribes nothing.
    pub fn handle(&mut self, context: RequestContext, request: &Request) -> (r: Result<Response, NeomacsError>)
        requires
            old(self).wf(),
        ensures
            final(self).wf(),
            r matches Ok(resp) && resp.msg_id == request.msg_id,
            request.params@.len() != 1 ==> final(self).spec_subscribers() == old(self).spec_subscribers()
                && (r matches Ok(resp) && (resp.result is None
                && (resp.error matches Some(e) && is_error_value(e, ErrorType::InvalidRequest, "subscribe only takes 1 parameter"@)))),
            request.params@.len() == 1 && !SubscribeRequest::decodes(request.params@[0])
                ==> final(self).spec_subscribers() == old(self).spec_subscribers()
                && (r matches Ok(resp) && (resp.result is None
                && (resp.error matches Some(e) && is_error_value(e, ErrorType::InvalidRequest, "Invalid subscribe request"@)))),
            request.params@.len() == 1 && SubscribeRequest::decodes(request.params@[0]) ==> exists|x: SubscribeRequest|
                SubscribeRequest::decodes_to(request.params@[0], x)
                && final(self).spec_subscribers() == with_subscriber(old(self).spec_subscribers(), x.event_name@, context.connection_id)
                && (r matches Ok(resp) && (resp.error is None
                && (resp.result matches Some(MsgValue::Dict(m)) && m@.len() == 1
                && spec_as_str(m@[0].0) == Some("status"@) && spec_as_str(m@[0].1) == Some("OK"@)))),
    {
        if request.params.len() != 1 {
            proof { reveal_strlit("subscribe only takes 1 parameter"); }
            return Ok(ErrorResponse::new(ErrorType::InvalidRequest, "subscribe only takes 1 parameter").into_response(request.msg_id));
        }
        match SubscribeRequest::read(&request.params[0]) {
            Ok(req) => {
                self.subscribe(context.connection_id, req.event_name.as_str());
                Ok(Response::success_with_status(request.msg_id, "OK"))
            },
            Err(_) => {
                proof { reveal_strlit("Invalid subscribe request"); }
                Ok(ErrorResponse::new(ErrorType::InvalidRequest, "Invalid subscribe request").into_response(request.msg_id))
            },
        }
    }
}

} // verus!
