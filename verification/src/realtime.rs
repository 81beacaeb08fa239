//! Placeholder client of a realtime speech service.

use vstd::prelude::*;

verus! {

/// Client of a realtime speech service; the connection is not implemented yet.
pub struct RealtimeClient {
    api_key: String,
}

impl RealtimeClient {
    /// The key the client authenticates with.
    pub closed spec fn spec_api_key(&self) -> Seq<char> {
        self.api_key@
    }

    /// A client that authenticates with `api_key`.
    pub fn new(api_key: String) -> (c: Self)
        ensures
            c.spec_api_key() == api_key@,
    {
        RealtimeClient { api_key }
    }
}

} // verus!
