//! The per-request proxy engine.
//!
//! One request walks `Accepted -> RequestFiltered -> Routed -> Forwarding ->
//! ResponseFiltered -> Completed`, with the side exit to `LocallyAnswered`
//! when a request filter stops the chain or no healthy upstream matches. The
//! engine plans the request phase (filters, then routing) and finishes the
//! response phase; moving bytes to and from the chosen upstream is transport
//! work outside it.

use vstd::prelude::*;
use crate::context::{RequestContext, ResponseContext};
use crate::filter::{Filter, chain_request_spec, chain_response_spec, run_request_filters,
    run_response_filters};
use crate::registry::{RegistrySnapshot, registry_wf};
use crate::router::{WeightedRouter, RouteDecision, router_wf, spec_route_decision,
    spec_route_advance};

verus! {

/// Where one request stands in its lifecycle.
#[derive(Clone, Copy, PartialEq, Eq, Structural, Debug)]
pub enum EngineState {
    Accepted,
    RequestFiltered,
    Routed,
    Forwarding,
    ResponseFiltered,
    Completed,
    LocallyAnswered,
    Aborted,
}

/// Status of a response synthesized when a request filter stops the chain.
pub const LOCAL_REJECT_STATUS: u16 = 403;

/// Status of a response synthesized on routing failure: no healthy upstream.
pub const BAD_GATEWAY_STATUS: u16 = 502;

/// The metrics sink: fire-and-forget counters and histograms, emitted at
/// engine state transitions; a sink must never block or fail the request.
pub trait Metrics {
    /// Adds to a named counter.
    fn incr_counter(&self, name: &str, value: u64);

    /// Records one sample of a named distribution.
    fn observe_histogram(&self, name: &str, value: u64);
}

/// A sink that drops every sample.
pub struct NullMetrics;

impl Metrics for NullMetrics {
    fn incr_counter(&self, name: &str, value: u64) {
    }

    fn observe_histogram(&self, name: &str, value: u64) {
    }
}

/// What the request phase decided: forward to the chosen upstream, or answer
/// the client locally with the synthesized response.
pub enum RoutePlan {
    Forward(RouteDecision),
    Local(ResponseContext),
}

/// A locally synthesized response: the given status, no headers.
pub fn local_response(status: u16) -> (r: ResponseContext)
    ensures
        r@.status == status,
        r@.headers.len() == 0,
{
    ResponseContext::new(status)
}

/// Plans one request: runs the request-filter chain in registration order,
/// then — only when no filter stopped the chain — asks the router for a
/// decision against the given registry snapshot.
///
/// On a filter stop the router is never consulted: its table is untouched and
/// the plan is a synthesized local rejection. On routing failure the plan is
/// a synthesized bad-gateway answer. Otherwise the plan forwards to the
/// upstream the route's rotation picked, and the matched route's cursor moves
/// one step.
pub fn plan_request<F: Filter, M: Metrics>(
    filters: &Vec<F>,
    router: &mut WeightedRouter,
    reg: &RegistrySnapshot,
    metrics: &M,
    ctx: &mut RequestContext,
) -> (r: (RoutePlan, EngineState))
    requires
        router_wf(old(router)@),
        registry_wf(reg@),
    ensures
        final(ctx)@ == chain_request_spec(filters@, old(ctx)@).0,
        router_wf(final(router)@),
        match chain_request_spec(filters@, old(ctx)@).1 {
            Some(_) => final(router)@ == old(router)@ && r.1 == EngineState::LocallyAnswered
                && match r.0 {
                RoutePlan::Local(resp) => resp@.status == LOCAL_REJECT_STATUS
                    && resp@.headers.len() == 0,
                RoutePlan::Forward(_) => false,
            },
            None => final(router)@ == spec_route_advance(
                old(router)@,
                reg@,
                chain_request_spec(filters@, old(ctx)@).0.path,
            ) && match spec_route_decision(
                old(router)@,
                reg@,
                chain_request_spec(filters@, old(ctx)@).0.path,
            ) {
                Some(id) => r.1 == EngineState::Routed && match r.0 {
                    RoutePlan::Forward(dec) => dec.upstream_id@ == id,
                    RoutePlan::Local(_) => false,
                },
                None => r.1 == EngineState::LocallyAnswered && match r.0 {
                    RoutePlan::Local(resp) => resp@.status == BAD_GATEWAY_STATUS
                        && resp@.headers.len() == 0,
                    RoutePlan::Forward(_) => false,
                },
            },
        },
{
    metrics.incr_counter("requests", 1);
    let stopped = run_request_filters(filters, ctx);
    match stopped {
        Some(_) => {
            metrics.incr_counter("local_answered", 1);
            (RoutePlan::Local(local_response(LOCAL_REJECT_STATUS)), EngineState::LocallyAnswered)
        },
        None => {
            match router.choose_upstream(ctx, reg) {
                Some(dec) => {
                    metrics.incr_counter("routed", 1);
                    (RoutePlan::Forward(dec), EngineState::Routed)
                },
                None => {
                    metrics.incr_counter("routing_failure", 1);
                    (
                        RoutePlan::Local(local_response(BAD_GATEWAY_STATUS)),
                        EngineState::LocallyAnswered,
                    )
                },
            }
        },
    }
}

/// Finishes one request: runs the response-filter chain in registration order
/// over whatever response there is — the upstream's or the synthesized one —
/// and completes the request.
pub fn finish_response<F: Filter, M: Metrics>(
    filters: &Vec<F>,
    metrics: &M,
    resp: &mut ResponseContext,
) -> (st: EngineState)
    ensures
        final(resp)@ == chain_response_spec(filters@, old(resp)@).0,
        st == EngineState::Completed,
{
    let _ = run_response_filters(filters, resp);
    metrics.incr_counter("completed", 1);
    EngineState::Completed
}

} // verus!
