//! The HTTP-facing proxy surface: applying one filter to both phases of a
//! request/response pair.

use vstd::prelude::*;
use crate::context::{RequestContext, ResponseContext};
use crate::filter::Filter;

verus! {

/// The HTTP proxy front.
#[derive(Default)]
pub struct HttpProxy;

impl HttpProxy {
    /// A proxy front.
    pub fn new() -> (p: Self)
        ensures
            true,
    {
        HttpProxy
    }

    /// Runs one filter's request phase on the request and its response phase
    /// on the response, taking each phase's stated effect.
    pub fn apply_filter<F: Filter>(
        &self,
        filter: &F,
        req: &mut RequestContext,
        resp: &mut ResponseContext,
    )
        ensures
            final(req)@ == filter.req_spec(old(req)@).0,
            final(resp)@ == filter.resp_spec(old(resp)@).0,
    {
        let _ = filter.on_request(req);
        let _ = filter.on_response(resp);
    }
}

} // verus!
