//! The plugin factory: per-connection filter instances.
//!
//! Filters are not required to be safe for reuse across connections, so a
//! connection is bound to fresh instances produced from the active factory
//! list at accept time. A later swap of the active list leaves instances
//! already bound to a connection untouched: they are owned by it.

use vstd::prelude::*;
use crate::context::{ReqView, RespView, RequestContext, ResponseContext};
use crate::filter::{Filter, FilterResult, BasicFilter};

verus! {

/// A filter that changes nothing and always lets the chain go on.
pub struct NoopFilter;

impl Filter for NoopFilter {
    open spec fn req_spec(&self, ctx: ReqView) -> (ReqView, FilterResult) {
        (ctx, FilterResult::Continue)
    }

    open spec fn resp_spec(&self, ctx: RespView) -> (RespView, FilterResult) {
        (ctx, FilterResult::Continue)
    }

    fn on_request(&self, ctx: &mut RequestContext) -> (r: FilterResult) {
        FilterResult::Continue
    }

    fn on_response(&self, ctx: &mut ResponseContext) -> (r: FilterResult) {
        FilterResult::Continue
    }
}

/// Produces one fresh filter instance per connection, so any filter-internal
/// state stays isolated to that connection.
pub trait PluginFactory: Sized {
    /// The filter this factory stamps out.
    spec fn produces(&self) -> BasicFilter;

    /// A fresh instance for one connection.
    fn create(&self) -> (f: BasicFilter)
        ensures
            f == self.produces(),
    ;
}

/// A factory that stamps out copies of a template filter.
pub struct BasicFilterFactory {
    pub template: BasicFilter,
}

impl BasicFilterFactory {
    /// An equal, independently owned factory.
    pub fn duplicate(&self) -> (f: BasicFilterFactory)
        ensures
            f == *self,
    {
        BasicFilterFactory { template: self.template.duplicate() }
    }
}

impl PluginFactory for BasicFilterFactory {
    open spec fn produces(&self) -> BasicFilter {
        self.template
    }

    fn create(&self) -> (f: BasicFilter) {
        self.template.duplicate()
    }
}

/// Binds one connection: one fresh filter per active factory, in factory
/// order. The chain is owned by the connection; factory-list swaps after this
/// point do not reach it.
pub fn bind_connection<P: PluginFactory>(factories: &Vec<P>) -> (chain: Vec<BasicFilter>)
    ensures
        chain@ == factories@.map_values(|p: P| p.produces()),
{
    let mut chain: Vec<BasicFilter> = Vec::new();
    let mut i: usize = 0;
    proof {
        assert(chain@ =~= factories@.map_values(|p: P| p.produces()).take(0));
    }
    while i < factories.len()
        invariant
            0 <= i <= factories@.len(),
            chain@ == factories@.map_values(|p: P| p.produces()).take(i as int),
        decreases factories@.len() - i,
    {
        let f = factories[i].create();
        chain.push(f);
        proof {
            assert(chain@ =~= factories@.map_values(|p: P| p.produces()).take(i as int + 1));
        }
        i = i + 1;
    }
    proof {
        assert(factories@.map_values(|p: P| p.produces()).take(factories@.len() as int)
            =~= factories@.map_values(|p: P| p.produces()));
    }
    chain
}

} // verus!
