//! The method table of the RPC server: which service answers each request
//! method and each notification method, how services are added to it, and
//! what becomes of an incoming message.

use crate::error::{anyhow_msg, NeomacsError};
use crate::keyed::{has_key, keys_unique, lemma_push, lemma_to_map_dom, lemma_to_map_val, to_map};
use crate::rpc::codec::{is_error_value, ErrorResponse, ErrorType, Message, Response};
use crate::text::{concat_str, decimal, str_eq, u64_to_decimal};
use vstd::prelude::*;
use vstd::string::*;

verus! {

/// The method name of a table entry.
pub open spec fn route_key<H>(e: (String, H)) -> Seq<char> {
    e.0@
}

/// No two entries of a table share a method name.
pub open spec fn table_wf<H>(entries: Seq<(String, H)>) -> bool {
    keys_unique(entries, |e: (String, H)| route_key(e))
}

/// A table as a map from each method name to its handle.
pub open spec fn table<H>(entries: Seq<(String, H)>) -> Map<Seq<char>, H> {
    to_map(entries, |e: (String, H)| route_key(e)).map_values(|e: (String, H)| e.1)
}

/// The names of a list of methods.
pub open spec fn method_names(methods: Seq<&str>) -> Seq<Seq<char>> {
    methods.map_values(|m: &str| m@)
}

/// Whether the `i`-th of the methods `ms` cannot be registered: another
/// service has its name already (`taken`), or an earlier method of the same
/// list has it.
pub open spec fn clashes(taken: Set<Seq<char>>, ms: Seq<Seq<char>>, i: int) -> bool {
    taken.contains(ms[i]) || exists|j: int| 0 <= j < i && ms[j] == ms[i]
}

/// None of the first `k` methods clashes.
pub open spec fn clash_free_upto(taken: Set<Seq<char>>, ms: Seq<Seq<char>>, k: int) -> bool {
    forall|i: int| 0 <= i < k ==> !clashes(taken, ms, i)
}

/// How many of the methods `ms` a registration adds: all of them, or those
/// before the first that clashes.
pub open spec fn first_clash(taken: Set<Seq<char>>, ms: Seq<Seq<char>>) -> int {
    if exists|k: int| 0 <= k < ms.len() && clash_free_upto(taken, ms, k) && clashes(taken, ms, k) {
        choose|k: int| 0 <= k < ms.len() && clash_free_upto(taken, ms, k) && clashes(taken, ms, k)
    } else {
        ms.len() as int
    }
}

/// What a registration of the methods `ms` for `handle` does to a table
/// `before`, where `others` are the methods of the other kind: it adds the
/// methods before the first clash, each with a clone of `handle`, keeps
/// every earlier entry, and succeeds when nothing clashed.
pub open spec fn registered<H: Clone>(
    before: Map<Seq<char>, H>,
    others: Set<Seq<char>>,
    ms: Seq<Seq<char>>,
    handle: H,
    after: Map<Seq<char>, H>,
    ok: bool,
) -> bool {
    let k = first_clash(before.dom() + others, ms);
    &&& ok <==> k == ms.len()
    &&& forall|m: Seq<char>| #[trigger] after.dom().contains(m)
        <==> (before.dom().contains(m) || exists|i: int| 0 <= i < k && ms[i] == m)
    &&& forall|m: Seq<char>| before.dom().contains(m) ==> #[trigger] after[m] == before[m]
    &&& forall|m: Seq<char>| #[trigger] after.dom().contains(m) && !before.dom().contains(m)
        ==> cloned(handle, after[m])
}

pub proof fn lemma_first_clash_at(taken: Set<Seq<char>>, ms: Seq<Seq<char>>, k: int)
    requires
        0 <= k < ms.len(),
        clash_free_upto(taken, ms, k),
        clashes(taken, ms, k),
    ensures
        first_clash(taken, ms) == k,
{
    let c = choose|c: int| 0 <= c < ms.len() && clash_free_upto(taken, ms, c) && clashes(taken, ms, c);
    if c < k {
        assert(!clashes(taken, ms, c));
    } else if c > k {
        assert(!clashes(taken, ms, k));
    }
}

pub proof fn lemma_first_clash_none(taken: Set<Seq<char>>, ms: Seq<Seq<char>>)
    requires
        clash_free_upto(taken, ms, ms.len() as int),
    ensures
        first_clash(taken, ms) == ms.len(),
{
    if exists|k: int| 0 <= k < ms.len() && clash_free_upto(taken, ms, k) && clashes(taken, ms, k) {
        let c = choose|c: int| 0 <= c < ms.len() && clash_free_upto(taken, ms, c) && clashes(taken, ms, c);
        assert(!clashes(taken, ms, c));
    }
}

/// The index of the entry for `method`, if there is one.
fn position<H>(entries: &Vec<(String, H)>, method: &str) -> (r: Option<usize>)
    requires
        table_wf(entries@),
    ensures
        match r {
            Some(i) => i < entries@.len() && table(entries@).dom().contains(method@)
                && table(entries@)[method@] == entries@[i as int].1,
            None => !table(entries@).dom().contains(method@),
        },
{
    let ghost f = |e: (String, H)| route_key(e);
    let mut i: usize = 0;
    while i < entries.len()
        invariant
            i <= entries@.len(),
            table_wf(entries@),
            f == |e: (String, H)| route_key(e),
            forall|j: int| 0 <= j < i ==> route_key(#[trigger] entries@[j]) != method@,
        decreases entries@.len() - i,
    {
        if str_eq(entries[i].0.as_str(), method) {
            proof {
                lemma_to_map_val(entries@, f, i as int);
                assert(f(entries@[i as int]) == method@);
            }
            return Some(i);
        }
        i += 1;
    }
    proof {
        lemma_to_map_dom(entries@, f, method@);
        if has_key(entries@, f, method@) {
            let j = choose|j: int| 0 <= j < entries@.len() && f(#[trigger] entries@[j]) == method@;
            assert(route_key(entries@[j]) == method@);
        }
    }
    None
}

/// Adds each of `methods` to `entries` with a clone of `handle`, up to the
/// first whose name `entries` or `others` has already.
fn register_into<H: Clone, G>(
    entries: &mut Vec<(String, H)>,
    others: &Vec<(String, G)>,
    methods: &Vec<&str>,
    handle: &H,
) -> (r: Result<(), NeomacsError>)
    requires
        table_wf(old(entries)@),
        table_wf(others@),
        table(old(entries)@).dom().disjoint(table(others@).dom()),
    ensures
        table_wf(final(entries)@),
        table(final(entries)@).dom().disjoint(table(others@).dom()),
        registered(table(old(entries)@), table(others@).dom(), method_names(methods@), *handle,
            table(final(entries)@), r is Ok),
        r matches Err(e) ==> e is Unhandled,
{
    let ghost f = |e: (String, H)| route_key(e);
    let ghost before = table(old(entries)@);
    let ghost taken = before.dom() + table(others@).dom();
    let ghost ms = method_names(methods@);
    let mut i: usize = 0;
    while i < methods.len()
        invariant
            i <= methods@.len(),
            ms == method_names(methods@),
            ms.len() == methods@.len(),
            f == |e: (String, H)| route_key(e),
            before == table(old(entries)@),
            taken == before.dom() + table(others@).dom(),
            table_wf(entries@),
            table_wf(others@),
            table(entries@).dom().disjoint(table(others@).dom()),
            clash_free_upto(taken, ms, i as int),
            forall|m: Seq<char>| #[trigger] table(entries@).dom().contains(m)
                <==> (before.dom().contains(m) || exists|j: int| 0 <= j < i && ms[j] == m),
            forall|m: Seq<char>| before.dom().contains(m) ==> #[trigger] table(entries@)[m] == before[m],
            forall|m: Seq<char>| #[trigger] table(entries@).dom().contains(m) && !before.dom().contains(m)
                ==> cloned(*handle, table(entries@)[m]),
        decreases methods@.len() - i,
    {
        let method = methods[i];
        assert(ms[i as int] == method@);
        let own = position(entries, method);
        let other = position(others, method);
        if own.is_some() || other.is_some() {
            proof {
                assert(clashes(taken, ms, i as int)) by {
                    if own.is_some() && !before.dom().contains(method@) {
                        let j = choose|j: int| 0 <= j < i && ms[j] == method@;
                        assert(ms[j] == ms[i as int]);
                    }
                }
                lemma_first_clash_at(taken, ms, i as int);
            }
            let text = concat_str("Handler for RPC method ", method);
            let mut text = text;
            text.append(" already defined");
            return Err(NeomacsError::Unhandled(anyhow_msg(text)));
        }
        let ghost s0 = entries@;
        let copy = handle.clone();
        let entry = (String::from_str(method), copy);
        proof {
            lemma_to_map_dom(s0, f, method@);
            assert(!clashes(taken, ms, i as int)) by {
                if exists|j: int| 0 <= j < i && ms[j] == ms[i as int] {
                    let j = choose|j: int| 0 <= j < i && ms[j] == ms[i as int];
                    assert(table(s0).dom().contains(ms[j]));
                }
            }
        }
        entries.push(entry);
        proof {
            lemma_push(s0, f, entry);
            assert(table(entries@) =~= table(s0).insert(method@, copy));
            assert forall|m: Seq<char>| #[trigger] table(entries@).dom().contains(m)
                <==> (before.dom().contains(m) || exists|j: int| 0 <= j < i + 1 && ms[j] == m) by {
                if m == method@ {
                    assert(ms[i as int] == m);
                } else if exists|j: int| 0 <= j < i + 1 && ms[j] == m {
                    let j = choose|j: int| 0 <= j < i + 1 && ms[j] == m;
                    assert(j != i);
                    assert(table(s0).dom().contains(m));
                }
            }
        }
        i += 1;
    }
    proof { lemma_first_clash_none(taken, ms); }
    Ok(())
}

/// Where an incoming message goes.
#[derive(Debug)]
pub enum Route<'a, R, N> {
    /// The request goes to this service.
    Request(&'a R),
    /// No service answers the request's method: the client is sent this
    /// error response, and the error is reported.
    UnknownMethod(Response, NeomacsError),
    /// The notification goes to this service.
    Notification(&'a N),
    /// Nothing handles the message, for the reason that the error gives.
    Unhandled(NeomacsError),
}

/// For each request method and each notification method, the handle of
/// the service that answers it.
pub struct Routes<R, N> {
    requests: Vec<(String, R)>,
    notifications: Vec<(String, N)>,
}

impl<R, N> Routes<R, N> {
    /// The service that answers each request method.
    pub closed spec fn request_handles(self) -> Map<Seq<char>, R> {
        table(self.requests@)
    }

    /// The service that answers each notification method.
    pub closed spec fn notification_handles(self) -> Map<Seq<char>, N> {
        table(self.notifications@)
    }

    /// Every method that some service answers.
    pub open spec fn taken(self) -> Set<Seq<char>> {
        self.request_handles().dom() + self.notification_handles().dom()
    }

    /// No method is listed twice, and none is both a request and a
    /// notification method.
    pub closed spec fn wf(self) -> bool {
        &&& table_wf(self.requests@)
        &&& table_wf(self.notifications@)
        &&& self.request_handles().dom().disjoint(self.notification_handles().dom())
    }

    /// An empty table.
    pub fn new() -> (r: Self)
        ensures
            r.wf(),
            r.request_handles() == Map::<Seq<char>, R>::empty(),
            r.notification_handles() == Map::<Seq<char>, N>::empty(),
    {
        let r = Routes { requests: Vec::new(), notifications: Vec::new() };
        assert(r.request_handles() =~= Map::empty());
        assert(r.notification_handles() =~= Map::empty());
        r
    }

    /// Registers the service `handle` for each request method in `methods`.
    /// A method that some service answers already (this one's earlier
    /// methods included) fails the registration with an `Unhandled` error;
    /// the methods before it stay registered.
    pub fn register_request_handler(&mut self, methods: &Vec<&str>, handle: &R) -> (r: Result<(), NeomacsError>)
        where
            R: Clone,
        requires
            old(self).wf(),
        ensures
            final(self).wf(),
            final(self).notification_handles() == old(self).notification_handles(),
            registered(old(self).request_handles(), old(self).notification_handles().dom(),
                method_names(methods@), *handle, final(self).request_handles(), r is Ok),
            r matches Err(e) ==> e is Unhandled,
    {
        register_into(&mut self.requests, &self.notifications, methods, handle)
    }

    /// Registers the service `handle` for each notification method in
    /// `methods`, as `register_request_handler` does for requests.
    pub fn register_notification_handler(&mut self, methods: &Vec<&str>, handle: &N) -> (r: Result<(), NeomacsError>)
        where
            N: Clone,
        requires
            old(self).wf(),
        ensures
            final(self).wf(),
            final(self).request_handles() == old(self).request_handles(),
            registered(old(self).notification_handles(), old(self).request_handles().dom(),
                method_names(methods@), *handle, final(self).notification_handles(), r is Ok),
            r matches Err(e) ==> e is Unhandled,
    {
        let r = register_into(&mut self.notifications, &self.requests, methods, handle);
        assert(self.request_handles().dom().disjoint(self.notification_handles().dom()));
        r
    }

    /// The service that answers the request method `method`, if any.
    pub fn request_handler(&self, method: &str) -> (r: Option<&R>)
        requires
            self.wf(),
        ensures
            self.request_handles().dom().contains(method@) ==> r == Some(&self.request_handles()[method@]),
            !self.request_handles().dom().contains(method@) ==> r is None,
    {
        match position(&self.requests, method) {
            Some(i) => Some(&self.requests[i].1),
            None => None,
        }
    }

    /// The service that answers the notification method `method`, if any.
    pub fn notification_handler(&self, method: &str) -> (r: Option<&N>)
        requires
            self.wf(),
        ensures
            self.notification_handles().dom().contains(method@) ==> r == Some(&self.notification_handles()[method@]),
            !self.notification_handles().dom().contains(method@) ==> r is None,
    {
        match position(&self.notifications, method) {
            Some(i) => Some(&self.notifications[i].1),
            None => None,
        }
    }

    /// Where `message` goes: a request or a notification to the service of
    /// its method; a request whose method nobody answers is answered with an
    /// `UNKNOWN_METHOD` error; a notification whose method nobody answers,
    /// and any response, is reported as an error.
    pub fn route(&self, message: &Message) -> (r: Route<'_, R, N>)
        requires
            self.wf(),
        ensures
            match message {
                Message::Request(req) => if self.request_handles().dom().contains(req.method@) {
                    r == Route::<'_, R, N>::Request(&self.request_handles()[req.method@])
                } else {
                    r matches Route::UnknownMethod(resp, e) && resp.msg_id == req.msg_id && resp.result is None
                        && (resp.error matches Some(v)
                            && is_error_value(v, ErrorType::UnknownMethod, "Unknown method "@ + req.method@))
                        && (e matches NeomacsError::RequestError(t)
                            && t@ == "No request handler registered for notification "@ + req.method@)
                },
                Message::Notification(n) => if self.notification_handles().dom().contains(n.method@) {
                    r == Route::<'_, R, N>::Notification(&self.notification_handles()[n.method@])
                } else {
                    r matches Route::Unhandled(NeomacsError::RequestError(t))
                        && t@ == "No notification handler registered for notification "@ + n.method@
                },
                Message::Response(resp) => r matches Route::Unhandled(NeomacsError::RequestError(t))
                    && t@ == "Received an unexpected response message with message id: "@ + decimal(resp.msg_id as nat),
            },
    {
        match message {
            Message::Request(req) => match self.request_handler(req.method.as_str()) {
                Some(h) => Route::Request(h),
                None => {
                    let text = concat_str("Unknown method ", req.method.as_str());
                    let response = ErrorResponse::new(ErrorType::UnknownMethod, text.as_str()).into_response(req.msg_id);
                    let report = concat_str("No request handler registered for notification ", req.method.as_str());
                    Route::UnknownMethod(response, NeomacsError::RequestError(report))
                },
            },
            Message::Notification(n) => match self.notification_handler(n.method.as_str()) {
                Some(h) => Route::Notification(h),
                None => {
                    let report = concat_str("No notification handler registered for notification ", n.method.as_str());
                    Route::Unhandled(NeomacsError::RequestError(report))
                },
            },
            Message::Response(resp) => {
                let id = u64_to_decimal(resp.msg_id);
                let report = concat_str("Received an unexpected response message with message id: ", id.as_str());
                Route::Unhandled(NeomacsError::RequestError(report))
            },
        }
    }
}

/// No method is ever answered both as a request and as a notification.
pub proof fn law_methods_of_one_kind<R, N>(routes: Routes<R, N>, method: Seq<char>)
    requires
        routes.wf(),
    ensures
        !(routes.request_handles().dom().contains(method) && routes.notification_handles().dom().contains(method)),
{
}

} // verus!
