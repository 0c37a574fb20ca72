//! What a handler of RPC requests is told about the request's origin.

use vstd::prelude::*;

verus! {

/// The connection a request came in on.
#[derive(Debug, Clone, Copy)]
pub struct RequestContext {
    pub connection_id: u64,
}

impl RequestContext {
    pub fn new(connection_id: u64) -> (c: Self)
        ensures
            c.connection_id == connection_id,
    {
        Self { connection_id }
    }
}

} // verus!
