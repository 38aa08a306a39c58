//! The administrative health endpoint.

use vstd::prelude::*;

verus! {

/// The administrative surface of the proxy.
pub struct AdminApi;

impl AdminApi {
    /// An administrative handle.
    pub fn new() -> (a: Self)
        ensures
            true,
    {
        AdminApi
    }

    /// The liveness answer the health endpoint serves.
    pub fn health(&self) -> (r: &'static str)
        ensures
            r@ == "ok"@,
    {
        "ok"
    }
}

} // verus!
