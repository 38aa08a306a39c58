//! The ordered, short-circuiting filter chain.
//!
//! A filter is a unit of request/response mutation logic. Each filter carries
//! two spec functions that give the exact effect of its two phases, and the
//! chain runners fold those effects in registration order, stopping a phase at
//! the first filter that answers `Stop`.

use vstd::prelude::*;
use crate::context::{ReqView, RespView, RequestContext, ResponseContext};

verus! {

/// A filter's answer: go on with the rest of the phase, or end it here.
/// `Stop` does not itself produce a response; the engine synthesizes one.
#[derive(Clone, Copy, PartialEq, Eq, Structural, Debug)]
pub enum FilterResult {
    Continue,
    Stop,
}

impl Default for FilterResult {
    /// The default verdict lets the chain go on.
    fn default() -> (r: Self)
        ensures
            r == FilterResult::Continue,
    {
        FilterResult::Continue
    }
}

/// A unit of request/response mutation logic composed into an ordered chain.
/// `req_spec` and `resp_spec` state the exact effect of the two phases; the
/// executable methods are held to them. A filter that cares about one phase
/// only gives the other phase's spec the identity effect and answers
/// `Continue` there, as `NoopFilter` does for both.
///
/// A filter never raises a fatal error to the engine: the phases return only
/// a `FilterResult`, so an implementation recovers from any internal fault by
/// answering `Continue` with no mutation (fail-open), keeping the pipeline
/// live.
pub trait Filter: Sized {
    /// The effect of the request phase on the request's abstract value.
    spec fn req_spec(&self, ctx: ReqView) -> (ReqView, FilterResult);

    /// The effect of the response phase on the response's abstract value.
    spec fn resp_spec(&self, ctx: RespView) -> (RespView, FilterResult);

    /// Runs the request phase: may rewrite the path or headers, and may end
    /// the request-filter chain.
    fn on_request(&self, ctx: &mut RequestContext) -> (r: FilterResult)
        ensures
            (final(ctx)@, r) == self.req_spec(old(ctx)@),
    ;

    /// Runs the response phase: may rewrite the status or headers, and may
    /// end the response-filter chain.
    fn on_response(&self, ctx: &mut ResponseContext) -> (r: FilterResult)
        ensures
            (final(ctx)@, r) == self.resp_spec(old(ctx)@),
    ;
}

/// A ready-made filter: one request-phase or response-phase mutation, or a
/// request-phase halt. Chains of mixed behaviour are built as `Vec<BasicFilter>`.
pub enum BasicFilter {
    /// Writes the header on the request.
    SetRequestHeader { name: String, value: String },
    /// Writes the header on the response.
    SetResponseHeader { name: String, value: String },
    /// Replaces the request's path.
    RewritePath { path: String },
    /// Ends the request-filter chain; the engine answers locally.
    Halt,
}

impl BasicFilter {
    /// An equal, independently owned filter instance.
    pub fn duplicate(&self) -> (f: BasicFilter)
        ensures
            f == *self,
    {
        match self {
            BasicFilter::SetRequestHeader { name, value } => BasicFilter::SetRequestHeader {
                name: name.clone(),
                value: value.clone(),
            },
            BasicFilter::SetResponseHeader { name, value } => BasicFilter::SetResponseHeader {
                name: name.clone(),
                value: value.clone(),
            },
            BasicFilter::RewritePath { path } => BasicFilter::RewritePath { path: path.clone() },
            BasicFilter::Halt => BasicFilter::Halt,
        }
    }
}

impl Filter for BasicFilter {
    open spec fn req_spec(&self, ctx: ReqView) -> (ReqView, FilterResult) {
        match self {
            BasicFilter::SetRequestHeader { name, value } => (
                ReqView { headers: ctx.headers.push((name@, value@)), ..ctx },
                FilterResult::Continue,
            ),
            BasicFilter::SetResponseHeader { .. } => (ctx, FilterResult::Continue),
            BasicFilter::RewritePath { path } => (
                ReqView { path: path@, ..ctx },
                FilterResult::Continue,
            ),
            BasicFilter::Halt => (ctx, FilterResult::Stop),
        }
    }

    open spec fn resp_spec(&self, ctx: RespView) -> (RespView, FilterResult) {
        match self {
            BasicFilter::SetResponseHeader { name, value } => (
                RespView { headers: ctx.headers.push((name@, value@)), ..ctx },
                FilterResult::Continue,
            ),
            _ => (ctx, FilterResult::Continue),
        }
    }

    fn on_request(&self, ctx: &mut RequestContext) -> (r: FilterResult) {
        match self {
            BasicFilter::SetRequestHeader { name, value } => {
                ctx.set_header(name.clone(), value.clone());
                FilterResult::Continue
            },
            BasicFilter::SetResponseHeader { .. } => FilterResult::Continue,
            BasicFilter::RewritePath { path } => {
                ctx.path = path.clone();
                FilterResult::Continue
            },
            BasicFilter::Halt => FilterResult::Stop,
        }
    }

    fn on_response(&self, ctx: &mut ResponseContext) -> (r: FilterResult) {
        match self {
            BasicFilter::SetResponseHeader { name, value } => {
                ctx.set_header(name.clone(), value.clone());
                FilterResult::Continue
            },
            _ => FilterResult::Continue,
        }
    }
}

/// The fold of a chain's request phase: the request's abstract value after the
/// phase, and the index of the filter that stopped it, if one did.
pub open spec fn chain_request_spec<F: Filter>(filters: Seq<F>, ctx: ReqView) -> (
    ReqView,
    Option<int>,
)
    decreases filters.len(),
{
    if filters.len() == 0 {
        (ctx, None)
    } else {
        let step = filters[0].req_spec(ctx);
        if step.1 == FilterResult::Stop {
            (step.0, Some(0int))
        } else {
            let rest = chain_request_spec(filters.skip(1), step.0);
            (
                rest.0,
                match rest.1 {
                    Some(j) => Some(j + 1),
                    None => None,
                },
            )
        }
    }
}

/// The fold of a chain's response phase, with the same stop rule.
pub open spec fn chain_response_spec<F: Filter>(filters: Seq<F>, ctx: RespView) -> (
    RespView,
    Option<int>,
)
    decreases filters.len(),
{
    if filters.len() == 0 {
        (ctx, None)
    } else {
        let step = filters[0].resp_spec(ctx);
        if step.1 == FilterResult::Stop {
            (step.0, Some(0int))
        } else {
            let rest = chain_response_spec(filters.skip(1), step.0);
            (
                rest.0,
                match rest.1 {
                    Some(j) => Some(j + 1),
                    None => None,
                },
            )
        }
    }
}

/// A stop index of the whole chain, seen from the chain's suffix that starts
/// at `k`.
pub open spec fn shift_stop(o: Option<int>, k: int) -> Option<int> {
    match o {
        Some(j) => Some(j - k),
        None => None,
    }
}

/// Runs the request-filter chain in registration order. Returns the index of
/// the filter that stopped the phase, if one did; filters after it never run.
pub fn run_request_filters<F: Filter>(filters: &Vec<F>, ctx: &mut RequestContext) -> (stopped:
    Option<usize>)
    ensures
        final(ctx)@ == chain_request_spec(filters@, old(ctx)@).0,
        match stopped {
            Some(i) => chain_request_spec(filters@, old(ctx)@).1 == Some(i as int),
            None => chain_request_spec(filters@, old(ctx)@).1 is None,
        },
{
    let ghost whole = chain_request_spec(filters@, old(ctx)@);
    let mut i: usize = 0;
    proof {
        assert(filters@.skip(0) =~= filters@);
    }
    while i < filters.len()
        invariant
            0 <= i <= filters@.len(),
            whole == chain_request_spec(filters@, old(ctx)@),
            chain_request_spec(filters@.skip(i as int), ctx@).0 == whole.0,
            chain_request_spec(filters@.skip(i as int), ctx@).1 == shift_stop(
                whole.1,
                i as int,
            ),
        decreases filters@.len() - i,
    {
        let ghost pre = ctx@;
        let ghost tail = filters@.skip(i as int);
        proof {
            assert(tail[0] == filters@[i as int]);
            assert(tail.skip(1) =~= filters@.skip(i as int + 1));
        }
        let r = filters[i].on_request(ctx);
        proof {
            let step = tail[0].req_spec(pre);
            assert(step.0 == ctx@ && step.1 == r);
            if r == FilterResult::Stop {
                assert(chain_request_spec(tail, pre) == (step.0, Some(0int)));
            } else {
                let rest = chain_request_spec(tail.skip(1), step.0);
                assert(chain_request_spec(tail, pre).0 == rest.0);
                assert(chain_request_spec(tail, pre).1 == shift_stop(rest.1, -1));
            }
        }
        match r {
            FilterResult::Stop => {
                return Some(i);
            },
            FilterResult::Continue => {},
        }
        i = i + 1;
    }
    proof {
        assert(filters@.skip(filters@.len() as int).len() == 0);
    }
    None
}

/// Runs the response-filter chain in registration order; a request-phase stop
/// never skips it. Returns the index of the response filter that stopped this
/// phase, if one did.
pub fn run_response_filters<F: Filter>(filters: &Vec<F>, ctx: &mut ResponseContext) -> (stopped:
    Option<usize>)
    ensures
        final(ctx)@ == chain_response_spec(filters@, old(ctx)@).0,
        match stopped {
            Some(i) => chain_response_spec(filters@, old(ctx)@).1 == Some(i as int),
            None => chain_response_spec(filters@, old(ctx)@).1 is None,
        },
{
    let ghost whole = chain_response_spec(filters@, old(ctx)@);
    let mut i: usize = 0;
    proof {
        assert(filters@.skip(0) =~= filters@);
    }
    while i < filters.len()
        invariant
            0 <= i <= filters@.len(),
            whole == chain_response_spec(filters@, old(ctx)@),
            chain_response_spec(filters@.skip(i as int), ctx@).0 == whole.0,
            chain_response_spec(filters@.skip(i as int), ctx@).1 == shift_stop(
                whole.1,
                i as int,
            ),
        decreases filters@.len() - i,
    {
        let ghost pre = ctx@;
        let ghost tail = filters@.skip(i as int);
        proof {
            assert(tail[0] == filters@[i as int]);
            assert(tail.skip(1) =~= filters@.skip(i as int + 1));
        }
        let r = filters[i].on_response(ctx);
        proof {
            let step = tail[0].resp_spec(pre);
            assert(step.0 == ctx@ && step.1 == r);
            if r == FilterResult::Stop {
                assert(chain_response_spec(tail, pre) == (step.0, Some(0int)));
            } else {
                let rest = chain_response_spec(tail.skip(1), step.0);
                assert(chain_response_spec(tail, pre).0 == rest.0);
                assert(chain_response_spec(tail, pre).1 == shift_stop(rest.1, -1));
            }
        }
        match r {
            FilterResult::Stop => {
                return Some(i);
            },
            FilterResult::Continue => {},
        }
        i = i + 1;
    }
    proof {
        assert(filters@.skip(filters@.len() as int).len() == 0);
    }
    None
}

/// The request's abstract value after the first `n` filters of the chain,
/// each of which continued.
pub open spec fn chain_prefix_ctx<F: Filter>(filters: Seq<F>, ctx: ReqView, n: int) -> ReqView
    decreases n,
{
    if n <= 0 {
        ctx
    } else {
        filters[n - 1].req_spec(chain_prefix_ctx(filters, ctx, n - 1)).0
    }
}

/// Short-circuiting law: when every filter before `i` continues and filter `i`
/// stops, the whole chain's fold stops exactly at `i`, and its result is the
/// fold of the first `i + 1` filters alone — the filters after `i` contribute
/// nothing to it.
pub proof fn lemma_stop_short_circuits<F: Filter>(filters: Seq<F>, ctx: ReqView, i: int)
    requires
        0 <= i < filters.len(),
        forall|j: int| 0 <= j < i ==> (#[trigger] filters[j].req_spec(
            chain_prefix_ctx(filters, ctx, j),
        )).1 == FilterResult::Continue,
        filters[i].req_spec(chain_prefix_ctx(filters, ctx, i)).1 == FilterResult::Stop,
    ensures
        chain_request_spec(filters, ctx).1 == Some(i),
        chain_request_spec(filters, ctx).0 == chain_prefix_ctx(filters, ctx, i + 1),
    decreases i,
{
    if i == 0 {
        assert(chain_prefix_ctx(filters, ctx, 0) == ctx);
    } else {
        let step = filters[0].req_spec(ctx);
        assert(chain_prefix_ctx(filters, ctx, 0) == ctx);
        assert(step.1 == FilterResult::Continue);
        let tail = filters.skip(1);
        assert forall|j: int| 0 <= j < i - 1 implies chain_prefix_ctx(tail, step.0, j)
            == chain_prefix_ctx(filters, ctx, j + 1) by {
            lemma_chain_prefix_shift(filters, ctx, j);
        }
        lemma_chain_prefix_shift(filters, ctx, i - 1);
        assert forall|j: int| 0 <= j < i - 1 implies (#[trigger] tail[j].req_spec(
            chain_prefix_ctx(tail, step.0, j),
        )).1 == FilterResult::Continue by {
            assert(tail[j] == filters[j + 1]);
            assert(filters[j + 1].req_spec(chain_prefix_ctx(filters, ctx, j + 1)).1
                == FilterResult::Continue);
        }
        assert(tail[i - 1] == filters[i]);
        lemma_stop_short_circuits(tail, step.0, i - 1);
    }
}

/// Folding the tail from the first filter's output matches folding the whole
/// chain one filter further.
proof fn lemma_chain_prefix_shift<F: Filter>(filters: Seq<F>, ctx: ReqView, j: int)
    requires
        filters.len() > 0,
        0 <= j < filters.len(),
    ensures
        chain_prefix_ctx(filters.skip(1), filters[0].req_spec(ctx).0, j) == chain_prefix_ctx(
            filters,
            ctx,
            j + 1,
        ),
    decreases j,
{
    let step0 = filters[0].req_spec(ctx).0;
    if j == 0 {
        assert(chain_prefix_ctx(filters.skip(1), step0, 0) == step0);
        assert(chain_prefix_ctx(filters, ctx, 1) == filters[0].req_spec(
            chain_prefix_ctx(filters, ctx, 0),
        ).0);
    } else {
        lemma_chain_prefix_shift(filters, ctx, j - 1);
        assert(filters.skip(1)[j - 1] == filters[j]);
        assert(chain_prefix_ctx(filters.skip(1), step0, j) == filters.skip(1)[j - 1].req_spec(
            chain_prefix_ctx(filters.skip(1), step0, j - 1),
        ).0);
        assert(chain_prefix_ctx(filters, ctx, j + 1) == filters[j].req_spec(
            chain_prefix_ctx(filters, ctx, j),
        ).0);
    }
}

} // verus!
