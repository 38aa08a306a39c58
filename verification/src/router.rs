//! The router: prefix matching over routes and weighted round-robin
//! selection among the healthy upstreams bound to the matched route.
//!
//! A route binds a path prefix to a list of upstream identifiers and carries a
//! rotation cursor. A selection resolves the identifiers in the registry
//! snapshot, keeps the healthy ones, and picks the candidate whose cumulative
//! weight interval contains the cursor modulo the weight total, so that over
//! any full rotation each candidate is picked exactly its weight many times.

use vstd::prelude::*;
use vstd::set_lib::set_int_range;
use vstd::set_lib::lemma_int_range;
use vstd::assert_sets_equal;
use crate::strcmp::{str_eq, str_starts_with};
use crate::context::{RequestContext, ReqView};
use crate::registry::{
    Upstream, UpstreamView, RegistrySnapshot, contains_id, index_of_id, registry_wf,
};
use crate::filter::shift_stop;

verus! {

/// The chosen upstream identifier for one request; produced fresh per
/// request, never cached across requests.
#[derive(Debug, Clone)]
pub struct RouteDecision {
    pub upstream_id: String,
}

/// A rule binding a path prefix to candidate upstreams, with the route's
/// rotation cursor.
pub struct Route {
    pub prefix: String,
    pub upstream_ids: Vec<String>,
    pub cursor: u64,
}

/// Abstract value of a route.
pub ghost struct RouteView {
    pub prefix: Seq<char>,
    pub upstream_ids: Seq<Seq<char>>,
    pub cursor: u64,
}

impl View for Route {
    type V = RouteView;

    open spec fn view(&self) -> RouteView {
        RouteView {
            prefix: self.prefix@,
            upstream_ids: self.upstream_ids@.map_values(|s: String| s@),
            cursor: self.cursor,
        }
    }
}

/// Well-formed route table: each binding list small enough that its weight
/// total fits the machine.
pub open spec fn router_wf(routes: Seq<RouteView>) -> bool {
    forall|i: int|
        0 <= i < routes.len() ==> (#[trigger] routes[i].upstream_ids).len() <= 0xffff_ffff
}

/// The first route whose prefix is a prefix of the path, if any.
pub open spec fn match_route(routes: Seq<RouteView>, path: Seq<char>) -> Option<int>
    decreases routes.len(),
{
    if routes.len() == 0 {
        None
    } else if routes[0].prefix.is_prefix_of(path) {
        Some(0int)
    } else {
        match match_route(routes.skip(1), path) {
            Some(i) => Some(i + 1),
            None => None,
        }
    }
}

/// The first route whose prefix equals `p`, if any.
pub open spec fn route_pos(routes: Seq<RouteView>, p: Seq<char>) -> Option<int>
    decreases routes.len(),
{
    if routes.len() == 0 {
        None
    } else if routes[0].prefix == p {
        Some(0int)
    } else {
        match route_pos(routes.skip(1), p) {
            Some(i) => Some(i + 1),
            None => None,
        }
    }
}

/// The candidate set: the bound identifiers resolved in the registry, in
/// binding order, keeping only healthy entries.
pub open spec fn healthy_candidates(ids: Seq<Seq<char>>, reg: Seq<UpstreamView>) -> Seq<
    UpstreamView,
>
    decreases ids.len(),
{
    if ids.len() == 0 {
        Seq::empty()
    } else {
        let rest = healthy_candidates(ids.skip(1), reg);
        if contains_id(reg, ids[0]) && reg[index_of_id(reg, ids[0])].healthy {
            seq![reg[index_of_id(reg, ids[0])]] + rest
        } else {
            rest
        }
    }
}

/// The weight total of a candidate list.
pub open spec fn total_weight(c: Seq<UpstreamView>) -> int
    decreases c.len(),
{
    if c.len() == 0 {
        0
    } else {
        c[0].weight + total_weight(c.skip(1))
    }
}

/// The weight total of the first `i` candidates.
pub open spec fn prefix_weight(c: Seq<UpstreamView>, i: int) -> int
    decreases i,
{
    if i <= 0 {
        0
    } else {
        prefix_weight(c, i - 1) + c[i - 1].weight
    }
}

/// The candidate whose cumulative weight interval contains `k`.
pub open spec fn weighted_pick(c: Seq<UpstreamView>, k: int) -> int
    decreases c.len(),
{
    if c.len() == 0 {
        0
    } else if k < c[0].weight {
        0
    } else {
        1 + weighted_pick(c.skip(1), k - c[0].weight)
    }
}

/// Every candidate is a healthy registry entry; under a well-formed registry
/// every candidate's weight is positive.
pub proof fn lemma_candidates_from_registry(ids: Seq<Seq<char>>, reg: Seq<UpstreamView>)
    ensures
        forall|j: int|
            0 <= j < healthy_candidates(ids, reg).len() ==> {
                let c = #[trigger] healthy_candidates(ids, reg)[j];
                c.healthy && contains_id(reg, c.id) && exists|t: int|
                    0 <= t < reg.len() && reg[t] == c
            },
        registry_wf(reg) ==> forall|j: int|
            0 <= j < healthy_candidates(ids, reg).len() ==> (#[trigger] healthy_candidates(
                ids,
                reg,
            )[j]).weight >= 1,
    decreases ids.len(),
{
    if ids.len() > 0 {
        lemma_candidates_from_registry(ids.skip(1), reg);
        let rest = healthy_candidates(ids.skip(1), reg);
        if contains_id(reg, ids[0]) && reg[index_of_id(reg, ids[0])].healthy {
            let t0 = index_of_id(reg, ids[0]);
            assert(0 <= t0 < reg.len() && reg[t0].id == ids[0]);
            let whole = seq![reg[t0]] + rest;
            assert forall|j: int| 0 <= j < whole.len() implies {
                let c = #[trigger] whole[j];
                c.healthy && contains_id(reg, c.id) && exists|t: int|
                    0 <= t < reg.len() && reg[t] == c
            } by {
                if j == 0 {
                    assert(whole[0] == reg[t0]);
                } else {
                    assert(whole[j] == rest[j - 1]);
                }
            }
        }
    }
}

/// When every registry entry is unhealthy, no binding yields a candidate.
pub proof fn lemma_all_unhealthy_no_candidates(ids: Seq<Seq<char>>, reg: Seq<UpstreamView>)
    requires
        forall|i: int| 0 <= i < reg.len() ==> !(#[trigger] reg[i]).healthy,
    ensures
        healthy_candidates(ids, reg).len() == 0,
    decreases ids.len(),
{
    if ids.len() > 0 {
        lemma_all_unhealthy_no_candidates(ids.skip(1), reg);
    }
}

/// A weight total is never negative, and with positive weights it is at least
/// the number of candidates.
pub proof fn lemma_total_weight_bounds(c: Seq<UpstreamView>)
    ensures
        total_weight(c) >= 0,
        (forall|j: int| 0 <= j < c.len() ==> (#[trigger] c[j]).weight >= 1) ==> total_weight(c)
            >= c.len(),
    decreases c.len(),
{
    if c.len() > 0 {
        lemma_total_weight_bounds(c.skip(1));
        assert(forall|j: int|
            0 <= j < c.skip(1).len() ==> c.skip(1)[j] == c[j + 1]);
    }
}

/// The weight total splits at the first candidate.
proof fn lemma_total_weight_shift(c: Seq<UpstreamView>)
    requires
        c.len() > 0,
    ensures
        total_weight(c) == c[0].weight + total_weight(c.skip(1)),
{
}

/// A cumulative weight splits at the first candidate.
proof fn lemma_prefix_weight_shift(c: Seq<UpstreamView>, i: int)
    requires
        c.len() > 0,
        0 <= i <= c.len() - 1,
    ensures
        prefix_weight(c, i + 1) == c[0].weight + prefix_weight(c.skip(1), i),
    decreases i,
{
    if i == 0 {
        assert(prefix_weight(c, 1) == prefix_weight(c, 0) + c[0].weight);
        assert(prefix_weight(c.skip(1), 0) == 0);
    } else {
        lemma_prefix_weight_shift(c, i - 1);
        assert(c.skip(1)[i - 1] == c[i]);
        assert(prefix_weight(c, i + 1) == prefix_weight(c, i) + c[i].weight);
        assert(prefix_weight(c.skip(1), i) == prefix_weight(c.skip(1), i - 1) + c.skip(1)[
            i - 1
        ].weight);
    }
}

/// Cumulative weights grow with the prefix.
proof fn lemma_prefix_weight_mono(c: Seq<UpstreamView>, i: int, j: int)
    requires
        i <= j,
    ensures
        prefix_weight(c, i) <= prefix_weight(c, j),
    decreases j - i,
{
    if i < j {
        lemma_prefix_weight_mono(c, i, j - 1);
    }
}

/// The cumulative weight of the whole list is its total.
proof fn lemma_prefix_weight_total(c: Seq<UpstreamView>)
    ensures
        prefix_weight(c, c.len() as int) == total_weight(c),
    decreases c.len(),
{
    if c.len() > 0 {
        lemma_prefix_weight_total(c.skip(1));
        lemma_prefix_weight_shift(c, c.len() - 1);
    }
}

/// A pick is never a negative index.
proof fn lemma_pick_nonneg(c: Seq<UpstreamView>, k: int)
    ensures
        weighted_pick(c, k) >= 0,
    decreases c.len(),
{
    if c.len() > 0 && !(k < c[0].weight) {
        lemma_pick_nonneg(c.skip(1), k - c[0].weight);
    }
}

/// A pick within the weight total lands on a real candidate.
pub proof fn lemma_pick_in_range(c: Seq<UpstreamView>, k: int)
    requires
        0 <= k < total_weight(c),
    ensures
        0 <= weighted_pick(c, k) < c.len(),
    decreases c.len(),
{
    lemma_pick_nonneg(c, k);
    if c.len() > 0 && !(k < c[0].weight) {
        lemma_total_weight_shift(c);
        lemma_pick_in_range(c.skip(1), k - c[0].weight);
    }
}

/// Rotation law: the cursor values that pick candidate `i` are exactly the
/// interval of its cumulative weight.
pub proof fn lemma_pick_interval(c: Seq<UpstreamView>, i: int, k: int)
    requires
        0 <= i < c.len(),
        0 <= k < total_weight(c),
    ensures
        weighted_pick(c, k) == i <==> (prefix_weight(c, i) <= k < prefix_weight(c, i + 1)),
    decreases i,
{
    lemma_pick_nonneg(c, k);
    let w0 = c[0].weight as int;
    if i == 0 {
        if !(k < w0) {
            lemma_pick_nonneg(c.skip(1), k - w0);
        }
        assert(prefix_weight(c, 1) == prefix_weight(c, 0) + w0);
    } else {
        lemma_prefix_weight_mono(c, 1, i);
        assert(prefix_weight(c, 0) == 0);
        assert(prefix_weight(c, 1) == prefix_weight(c, 0) + c[0].weight);
        if k < w0 {
            assert(weighted_pick(c, k) == 0);
            assert(prefix_weight(c, i) >= w0);
        } else {
            lemma_total_weight_shift(c);
            lemma_pick_interval(c.skip(1), i - 1, k - w0);
            lemma_prefix_weight_shift(c, i - 1);
            lemma_prefix_weight_shift(c, i);
        }
    }
}

/// Fairness of the rotation: over one full rotation of the cursor, candidate
/// `i` is picked exactly its weight many times.
pub proof fn lemma_weighted_fairness(c: Seq<UpstreamView>, i: int)
    requires
        0 <= i < c.len(),
    ensures
        Set::new(|k: int| 0 <= k < total_weight(c) && weighted_pick(c, k) == i).len() == c[
            i
        ].weight as int,
{
    let s = Set::new(|k: int| 0 <= k < total_weight(c) && weighted_pick(c, k) == i);
    let lo = prefix_weight(c, i);
    let hi = prefix_weight(c, i + 1);
    assert(hi == lo + c[i].weight);
    lemma_prefix_weight_mono(c, 0, i);
    lemma_prefix_weight_mono(c, i + 1, c.len() as int);
    lemma_prefix_weight_total(c);
    assert_sets_equal!(s == set_int_range(lo, hi), k => {
        if s.contains(k) {
            lemma_pick_interval(c, i, k);
        }
        if lo <= k < hi {
            lemma_pick_interval(c, i, k);
        }
    });
    lemma_int_range(lo, hi);
}

/// The selection a route table, registry snapshot and path determine: the
/// identifier of the candidate picked by the matched route's cursor, or
/// nothing when no route matches or no candidate is healthy.
pub open spec fn spec_route_decision(
    routes: Seq<RouteView>,
    reg: Seq<UpstreamView>,
    path: Seq<char>,
) -> Option<Seq<char>> {
    match match_route(routes, path) {
        None => None,
        Some(ri) => {
            let cands = healthy_candidates(routes[ri].upstream_ids, reg);
            if cands.len() == 0 {
                None
            } else {
                let k = (routes[ri].cursor as int) % total_weight(cands);
                Some(cands[weighted_pick(cands, k)].id)
            }
        },
    }
}

/// The route table after a selection: the matched route's cursor moves one
/// step (wrapping) when a candidate was picked; nothing else ever moves.
pub open spec fn spec_route_advance(
    routes: Seq<RouteView>,
    reg: Seq<UpstreamView>,
    path: Seq<char>,
) -> Seq<RouteView> {
    match match_route(routes, path) {
        None => routes,
        Some(ri) => {
            let cands = healthy_candidates(routes[ri].upstream_ids, reg);
            if cands.len() == 0 {
                routes
            } else {
                let c = routes[ri].cursor;
                routes.update(
                    ri,
                    RouteView {
                        cursor: if c == 0xffff_ffff_ffff_ffffu64 {
                            0u64
                        } else {
                            (c + 1) as u64
                        },
                        ..routes[ri]
                    },
                )
            }
        },
    }
}

/// Routing failure law: when every registry entry is unhealthy, no request is
/// routed, whatever the route table and the path.
pub proof fn lemma_all_unhealthy_routes_none(
    routes: Seq<RouteView>,
    reg: Seq<UpstreamView>,
    path: Seq<char>,
)
    requires
        forall|i: int| 0 <= i < reg.len() ==> !(#[trigger] reg[i]).healthy,
    ensures
        spec_route_decision(routes, reg, path) is None,
{
    match match_route(routes, path) {
        None => {},
        Some(ri) => {
            lemma_all_unhealthy_no_candidates(routes[ri].upstream_ids, reg);
        },
    }
}

/// Resolves the bound identifiers in the registry and keeps the healthy ones,
/// in binding order.
fn collect_candidates(ids: &Vec<String>, reg: &RegistrySnapshot) -> (out: Vec<Upstream>)
    requires
        registry_wf(reg@),
    ensures
        out@.map_values(|u: Upstream| u@) == healthy_candidates(
            ids@.map_values(|s: String| s@),
            reg@,
        ),
        out@.len() <= ids@.len(),
{
    let ghost idv = ids@.map_values(|s: String| s@);
    let mut out: Vec<Upstream> = Vec::new();
    let mut i: usize = 0;
    proof {
        assert(idv.skip(0) =~= idv);
        assert(out@.map_values(|u: Upstream| u@) + healthy_candidates(idv, reg@)
            =~= healthy_candidates(idv, reg@));
    }
    while i < ids.len()
        invariant
            registry_wf(reg@),
            0 <= i <= ids@.len(),
            idv == ids@.map_values(|s: String| s@),
            out@.len() <= i,
            out@.map_values(|u: Upstream| u@) + healthy_candidates(idv.skip(i as int), reg@)
                == healthy_candidates(idv, reg@),
        decreases ids@.len() - i,
    {
        let ghost tail = idv.skip(i as int);
        let ghost before = out@.map_values(|u: Upstream| u@);
        proof {
            assert(tail[0] == idv[i as int]);
            assert(tail.skip(1) =~= idv.skip(i as int + 1));
        }
        match reg.get(ids[i].as_str()) {
            Some(u) => {
                if u.healthy {
                    let d = u.duplicate();
                    out.push(d);
                    proof {
                        let t0 = index_of_id(reg@, tail[0]);
                        assert(out@.map_values(|u: Upstream| u@) =~= before + seq![reg@[t0]]);
                        assert((before + seq![reg@[t0]]) + healthy_candidates(
                            tail.skip(1),
                            reg@,
                        ) =~= before + (seq![reg@[t0]] + healthy_candidates(tail.skip(1), reg@)));
                    }
                }
            },
            None => {},
        }
        i = i + 1;
    }
    proof {
        assert(idv.skip(idv.len() as int).len() == 0);
        assert(out@.map_values(|u: Upstream| u@) + healthy_candidates(
            idv.skip(idv.len() as int),
            reg@,
        ) =~= out@.map_values(|u: Upstream| u@));
    }
    out
}

/// Sums the candidate weights.
fn sum_weights(c: &Vec<Upstream>) -> (total: u64)
    requires
        c@.len() <= 0xffff_ffff,
    ensures
        total == total_weight(c@.map_values(|u: Upstream| u@)),
{
    let ghost cv = c@.map_values(|u: Upstream| u@);
    let mut acc: u64 = 0;
    let mut i: usize = 0;
    proof {
        assert(cv.skip(0) =~= cv);
    }
    while i < c.len()
        invariant
            cv == c@.map_values(|u: Upstream| u@),
            cv.len() <= 0xffff_ffff,
            0 <= i <= cv.len(),
            acc <= i * 0xffff_ffffu64,
            acc + total_weight(cv.skip(i as int)) == total_weight(cv),
        decreases cv.len() - i,
    {
        let ghost tail = cv.skip(i as int);
        proof {
            assert(tail[0] == cv[i as int]);
            assert(tail.skip(1) =~= cv.skip(i as int + 1));
            assert((i + 1) * 0xffff_ffffu64 == i * 0xffff_ffffu64 + 0xffff_ffffu64);
            assert(i * 0xffff_ffffu64 <= 0xffff_fffe * 0xffff_ffffu64);
        }
        acc = acc + (c[i].weight as u64);
        i = i + 1;
    }
    proof {
        assert(cv.skip(cv.len() as int).len() == 0);
    }
    acc
}

/// Walks the cumulative weights to the candidate whose interval contains `k`.
fn pick_index(c: &Vec<Upstream>, k: u64) -> (r: usize)
    requires
        0 <= k < total_weight(c@.map_values(|u: Upstream| u@)),
    ensures
        r == weighted_pick(c@.map_values(|u: Upstream| u@), k as int),
        r < c@.len(),
{
    let ghost cv = c@.map_values(|u: Upstream| u@);
    let mut acc: u64 = 0;
    let mut i: usize = 0;
    proof {
        assert(cv.skip(0) =~= cv);
        lemma_pick_in_range(cv, k as int);
    }
    while i < c.len()
        invariant
            cv == c@.map_values(|u: Upstream| u@),
            0 <= i <= cv.len(),
            acc <= k,
            weighted_pick(cv, k as int) == i + weighted_pick(cv.skip(i as int), k - acc),
            acc + total_weight(cv.skip(i as int)) == total_weight(cv),
            k < total_weight(cv),
            0 <= weighted_pick(cv, k as int) < cv.len(),
        decreases cv.len() - i,
    {
        let ghost tail = cv.skip(i as int);
        proof {
            assert(tail[0] == cv[i as int]);
            assert(tail.skip(1) =~= cv.skip(i as int + 1));
            lemma_total_weight_bounds(tail);
        }
        let w = c[i].weight as u64;
        proof {
            assert(k - acc < total_weight(tail));
            assert(total_weight(tail) == w + total_weight(tail.skip(1)));
            lemma_total_weight_bounds(tail.skip(1));
        }
        if k - acc < w {
            proof {
                assert(weighted_pick(tail, k - acc) == 0);
            }
            return i;
        }
        acc = acc + w;
        i = i + 1;
    }
    proof {
        assert(cv.skip(cv.len() as int).len() == 0);
        assert(total_weight(cv.skip(cv.len() as int)) == 0);
        assert(false);
    }
    0
}

/// The route table, with per-route rotation cursors.
pub struct WeightedRouter {
    pub routes: Vec<Route>,
}

impl View for WeightedRouter {
    type V = Seq<RouteView>;

    open spec fn view(&self) -> Seq<RouteView> {
        self.routes@.map_values(|r: Route| r@)
    }
}

impl WeightedRouter {
    /// An empty route table.
    pub fn new() -> (r: WeightedRouter)
        ensures
            r@.len() == 0,
            router_wf(r@),
    {
        let r = WeightedRouter { routes: Vec::new() };
        proof {
            assert(r@ =~= Seq::<RouteView>::empty());
        }
        r
    }

    /// Adds a route for the prefix, bound to no upstreams yet, with a fresh
    /// cursor.
    pub fn add_route(&mut self, prefix: String)
        requires
            router_wf(old(self)@),
        ensures
            final(self)@ == old(self)@.push(
                RouteView { prefix: prefix@, upstream_ids: Seq::empty(), cursor: 0u64 },
            ),
            router_wf(final(self)@),
    {
        let ghost before = self@;
        self.routes.push(Route { prefix, upstream_ids: Vec::new(), cursor: 0 });
        proof {
            let last = self.routes@.last();
            assert(last@.upstream_ids =~= Seq::<Seq<char>>::empty());
            assert(self@ =~= before.push(last@));
        }
    }

    /// The position of the first route whose prefix equals `prefix`, if any.
    fn position(&self, prefix: &str) -> (r: Option<usize>)
        ensures
            match r {
                Some(i) => route_pos(self@, prefix@) == Some(i as int) && i < self@.len()
                    && self@[i as int].prefix == prefix@,
                None => route_pos(self@, prefix@) is None,
            },
    {
        let ghost rv = self@;
        let mut i: usize = 0;
        proof {
            assert(rv.skip(0) =~= rv);
        }
        while i < self.routes.len()
            invariant
                rv == self@,
                0 <= i <= rv.len(),
                route_pos(rv.skip(i as int), prefix@) == shift_stop(
                    route_pos(rv, prefix@),
                    i as int,
                ),
            decreases rv.len() - i,
        {
            let ghost tail = rv.skip(i as int);
            proof {
                assert(tail[0] == rv[i as int]);
                assert(tail.skip(1) =~= rv.skip(i as int + 1));
            }
            if str_eq(self.routes[i].prefix.as_str(), prefix) {
                return Some(i);
            }
            i = i + 1;
        }
        proof {
            assert(rv.skip(rv.len() as int).len() == 0);
        }
        None
    }

    /// Binds one more upstream identifier to the first route carrying the
    /// prefix; without such a route nothing changes.
    pub fn bind_upstream(&mut self, prefix: &str, id: String)
        requires
            router_wf(old(self)@),
            match route_pos(old(self)@, prefix@) {
                Some(ri) => old(self)@[ri].upstream_ids.len() < 0xffff_ffff,
                None => true,
            },
        ensures
            match route_pos(old(self)@, prefix@) {
                Some(ri) => final(self)@ == old(self)@.update(
                    ri,
                    RouteView {
                        upstream_ids: old(self)@[ri].upstream_ids.push(id@),
                        ..old(self)@[ri]
                    },
                ),
                None => final(self)@ == old(self)@,
            },
            router_wf(final(self)@),
    {
        let ghost before = self@;
        match self.position(prefix) {
            Some(i) => {
                let ghost idv = id@;
                self.routes[i].upstream_ids.push(id);
                proof {
                    let ri = i as int;
                    assert(self@[ri].upstream_ids =~= before[ri].upstream_ids.push(idv));
                    assert(self@ =~= before.update(
                        ri,
                        RouteView {
                            upstream_ids: before[ri].upstream_ids.push(idv),
                            ..before[ri]
                        },
                    ));
                }
            },
            None => {},
        }
    }

    /// Takes the first route carrying the prefix out; without such a route
    /// nothing changes.
    pub fn remove_route(&mut self, prefix: &str)
        requires
            router_wf(old(self)@),
        ensures
            match route_pos(old(self)@, prefix@) {
                Some(ri) => final(self)@ == old(self)@.remove(ri),
                None => final(self)@ == old(self)@,
            },
            router_wf(final(self)@),
    {
        let ghost before = self@;
        match self.position(prefix) {
            Some(i) => {
                let _ = self.routes.remove(i);
                proof {
                    assert(self@ =~= before.remove(i as int));
                    assert forall|j: int|
                        0 <= j < self@.len() implies (#[trigger] self@[j].upstream_ids).len()
                        <= 0xffff_ffff by {
                        assert(self@[j] == if j < i as int {
                            before[j]
                        } else {
                            before[j + 1]
                        });
                    }
                }
            },
            None => {},
        }
    }

    /// The position of the first route whose prefix is a prefix of `path`.
    fn matching_route(&self, path: &str) -> (r: Option<usize>)
        ensures
            match r {
                Some(i) => match_route(self@, path@) == Some(i as int) && i < self@.len(),
                None => match_route(self@, path@) is None,
            },
    {
        let ghost rv = self@;
        let mut i: usize = 0;
        proof {
            assert(rv.skip(0) =~= rv);
        }
        while i < self.routes.len()
            invariant
                rv == self@,
                0 <= i <= rv.len(),
                match_route(rv.skip(i as int), path@) == shift_stop(
                    match_route(rv, path@),
                    i as int,
                ),
            decreases rv.len() - i,
        {
            let ghost tail = rv.skip(i as int);
            proof {
                assert(tail[0] == rv[i as int]);
                assert(tail.skip(1) =~= rv.skip(i as int + 1));
            }
            if str_starts_with(path, self.routes[i].prefix.as_str()) {
                return Some(i);
            }
            i = i + 1;
        }
        proof {
            assert(rv.skip(rv.len() as int).len() == 0);
        }
        None
    }

    /// One selection without rotation: the decision the current cursors
    /// determine, leaving the table untouched.
    pub fn peek_upstream(&self, ctx: &RequestContext, reg: &RegistrySnapshot) -> (d: Option<
        RouteDecision,
    >)
        requires
            router_wf(self@),
            registry_wf(reg@),
        ensures
            match d {
                Some(dec) => spec_route_decision(self@, reg@, ctx@.path) == Some(
                    dec.upstream_id@,
                ),
                None => spec_route_decision(self@, reg@, ctx@.path) is None,
            },
    {
        let ri = match self.matching_route(ctx.path.as_str()) {
            None => {
                return None;
            },
            Some(ri) => ri,
        };
        let ghost rv = self@;
        let ghost idv = self.routes@[ri as int].upstream_ids@.map_values(|s: String| s@);
        proof {
            assert(rv[ri as int].upstream_ids == idv);
        }
        let cands = collect_candidates(&self.routes[ri].upstream_ids, reg);
        if cands.len() == 0 {
            return None;
        }
        let ghost cv = cands@.map_values(|u: Upstream| u@);
        proof {
            lemma_candidates_from_registry(idv, reg@);
            lemma_total_weight_bounds(cv);
        }
        let total = sum_weights(&cands);
        let k = self.routes[ri].cursor % total;
        let pi = pick_index(&cands, k);
        Some(RouteDecision { upstream_id: cands[pi].id.clone() })
    }

    /// One selection: the decision the current cursors determine, with the
    /// matched route's cursor rotated one step when a candidate was picked.
    pub fn choose_upstream(&mut self, ctx: &RequestContext, reg: &RegistrySnapshot) -> (d: Option<
        RouteDecision,
    >)
        requires
            router_wf(old(self)@),
            registry_wf(reg@),
        ensures
            match d {
                Some(dec) => spec_route_decision(old(self)@, reg@, ctx@.path) == Some(
                    dec.upstream_id@,
                ),
                None => spec_route_decision(old(self)@, reg@, ctx@.path) is None,
            },
            final(self)@ == spec_route_advance(old(self)@, reg@, ctx@.path),
            router_wf(final(self)@),
    {
        let ghost before = self@;
        let d = self.peek_upstream(ctx, reg);
        match &d {
            None => {
                proof {
                    assert(spec_route_advance(before, reg@, ctx@.path) == before);
                }
            },
            Some(_) => {
                let ri = match self.matching_route(ctx.path.as_str()) {
                    None => {
                        proof {
                            assert(false);
                        }
                        return None;
                    },
                    Some(ri) => ri,
                };
                let cur = self.routes[ri].cursor;
                let ncur = if cur == 0xffff_ffff_ffff_ffff {
                    0
                } else {
                    cur + 1
                };
                self.routes[ri].cursor = ncur;
                proof {
                    let rj = ri as int;
                    assert(self@ =~= before.update(
                        rj,
                        RouteView { cursor: ncur, ..before[rj] },
                    ));
                    assert forall|j: int|
                        0 <= j < self@.len() implies (#[trigger] self@[j].upstream_ids).len()
                        <= 0xffff_ffff by {
                        assert(self@[j].upstream_ids == before[j].upstream_ids);
                    }
                }
            },
        }
        d
    }
}

/// A selector of a healthy upstream for a request; a route decision is
/// produced fresh per request and never cached.
pub trait Router: Sized {
    /// What the router needs of its own state.
    spec fn wf_spec(&self) -> bool;

    /// The identifier the router resolves the request to, if any.
    spec fn decision(&self, ctx: ReqView) -> Option<Seq<char>>;

    /// Selects an upstream for the request.
    fn choose_upstream(&self, ctx: &RequestContext) -> (d: Option<RouteDecision>)
        requires
            self.wf_spec(),
        ensures
            match d {
                Some(dec) => self.decision(ctx@) == Some(dec.upstream_id@),
                None => self.decision(ctx@) is None,
            },
    ;
}

/// A route table bound to one registry snapshot: a read-only router over a
/// consistent view of the upstream set.
pub struct BoundRouter {
    pub table: WeightedRouter,
    pub registry: RegistrySnapshot,
}

impl Router for BoundRouter {
    open spec fn wf_spec(&self) -> bool {
        router_wf(self.table@) && registry_wf(self.registry@)
    }

    open spec fn decision(&self, ctx: ReqView) -> Option<Seq<char>> {
        spec_route_decision(self.table@, self.registry@, ctx.path)
    }

    fn choose_upstream(&self, ctx: &RequestContext) -> (d: Option<RouteDecision>) {
        self.table.peek_upstream(ctx, &self.registry)
    }
}

} // verus!
