//! The upstream registry and health tracker.
//!
//! The registry holds the live set of backend upstreams keyed by identifier.
//! Every mutation — add, remove, update, set-health — turns one complete
//! snapshot value into the next complete snapshot value, so a reader holding a
//! snapshot can never see a half-applied update: an upstream's weight and
//! health flag always come from the same mutation.

use vstd::prelude::*;
use crate::strcmp::str_eq;

verus! {

/// Health of one upstream, written only by the health-check component.
#[derive(Clone, Copy, PartialEq, Eq, Structural, Debug)]
pub enum HealthStatus {
    Healthy,
    Unhealthy,
}

/// A backend endpoint eligible to receive proxied requests: unique
/// identifier, network address, positive selection weight, health flag.
#[derive(Debug, Clone)]
pub struct Upstream {
    pub id: String,
    pub address: String,
    pub weight: u32,
    pub healthy: bool,
}

/// Abstract value of an upstream.
pub ghost struct UpstreamView {
    pub id: Seq<char>,
    pub address: Seq<char>,
    pub weight: u32,
    pub healthy: bool,
}

impl View for Upstream {
    type V = UpstreamView;

    open spec fn view(&self) -> UpstreamView {
        UpstreamView {
            id: self.id@,
            address: self.address@,
            weight: self.weight,
            healthy: self.healthy,
        }
    }
}

impl Upstream {
    /// An equal, independently owned upstream value.
    pub fn duplicate(&self) -> (u: Upstream)
        ensures
            u@ == self@,
    {
        Upstream {
            id: self.id.clone(),
            address: self.address.clone(),
            weight: self.weight,
            healthy: self.healthy,
        }
    }
}

/// Decides health from the live state an upstream carries.
pub struct FlagHealthChecker;

/// An external prober's interface: one verdict per upstream, written back via
/// `RegistrySnapshot::set_health` and never by the routing path.
pub trait HealthChecker: Sized {
    /// The verdict the checker gives for an upstream's abstract value.
    spec fn verdict(&self, u: UpstreamView) -> HealthStatus;

    /// Probes one upstream.
    fn check(&self, upstream: &Upstream) -> (r: HealthStatus)
        ensures
            r == self.verdict(upstream@),
    ;
}

impl HealthChecker for FlagHealthChecker {
    open spec fn verdict(&self, u: UpstreamView) -> HealthStatus {
        if u.healthy {
            HealthStatus::Healthy
        } else {
            HealthStatus::Unhealthy
        }
    }

    fn check(&self, upstream: &Upstream) -> (r: HealthStatus) {
        if upstream.healthy {
            HealthStatus::Healthy
        } else {
            HealthStatus::Unhealthy
        }
    }
}

/// Whether some upstream in the sequence carries the identifier.
pub open spec fn contains_id(s: Seq<UpstreamView>, id: Seq<char>) -> bool {
    exists|i: int| 0 <= i < s.len() && s[i].id == id
}

/// The index of the upstream carrying the identifier; meaningful under
/// `registry_wf`, where identifiers are unique.
pub open spec fn index_of_id(s: Seq<UpstreamView>, id: Seq<char>) -> int {
    choose|i: int| 0 <= i < s.len() && s[i].id == id
}

/// Well-formed snapshot: identifiers unique, weights positive.
pub open spec fn registry_wf(s: Seq<UpstreamView>) -> bool {
    &&& forall|i: int, j: int|
        0 <= i < s.len() && 0 <= j < s.len() && i != j ==> s[i].id != s[j].id
    &&& forall|i: int| 0 <= i < s.len() ==> (#[trigger] s[i].weight) >= 1
}

/// The snapshot after an add-or-update of `u`: the entry with `u`'s
/// identifier replaced in place, or `u` appended when the identifier is new.
pub open spec fn spec_upsert(s: Seq<UpstreamView>, u: UpstreamView) -> Seq<UpstreamView> {
    if contains_id(s, u.id) {
        s.update(index_of_id(s, u.id), u)
    } else {
        s.push(u)
    }
}

/// The snapshot after removal of the identifier; unchanged when absent.
pub open spec fn spec_remove(s: Seq<UpstreamView>, id: Seq<char>) -> Seq<UpstreamView> {
    if contains_id(s, id) {
        s.remove(index_of_id(s, id))
    } else {
        s
    }
}

/// The snapshot after a health verdict for the identifier: only that entry's
/// health flag moves; unchanged when the identifier is absent.
pub open spec fn spec_set_health(
    s: Seq<UpstreamView>,
    id: Seq<char>,
    status: HealthStatus,
) -> Seq<UpstreamView> {
    if contains_id(s, id) {
        let i = index_of_id(s, id);
        s.update(i, UpstreamView { healthy: status == HealthStatus::Healthy, ..s[i] })
    } else {
        s
    }
}

/// Removal really erases the identifier (under unique identifiers).
pub proof fn lemma_remove_erases(s: Seq<UpstreamView>, id: Seq<char>)
    requires
        registry_wf(s),
    ensures
        !contains_id(spec_remove(s, id), id),
        registry_wf(spec_remove(s, id)),
{
    if contains_id(s, id) {
        let i = index_of_id(s, id);
        let r = s.remove(i);
        assert forall|j: int| 0 <= j < r.len() implies r[j].id != id by {
            if j < i {
                assert(r[j] == s[j]);
            } else {
                assert(r[j] == s[j + 1]);
            }
        }
        assert forall|j: int, k: int|
            0 <= j < r.len() && 0 <= k < r.len() && j != k implies r[j].id != r[k].id by {
            assert(r[j] == if j < i { s[j] } else { s[j + 1] });
            assert(r[k] == if k < i { s[k] } else { s[k + 1] });
        }
        assert forall|j: int| 0 <= j < r.len() implies (#[trigger] r[j].weight) >= 1 by {
            assert(r[j] == if j < i { s[j] } else { s[j + 1] });
        }
    }
}

/// Removing an identifier twice is the same as removing it once.
pub proof fn lemma_remove_idempotent(s: Seq<UpstreamView>, id: Seq<char>)
    requires
        registry_wf(s),
    ensures
        spec_remove(spec_remove(s, id), id) == spec_remove(s, id),
{
    lemma_remove_erases(s, id);
}

/// Setting the same health verdict twice is the same as setting it once.
pub proof fn lemma_set_health_idempotent(s: Seq<UpstreamView>, id: Seq<char>, st: HealthStatus)
    requires
        registry_wf(s),
    ensures
        spec_set_health(spec_set_health(s, id, st), id, st) == spec_set_health(s, id, st),
{
    if contains_id(s, id) {
        let i = index_of_id(s, id);
        let s1 = spec_set_health(s, id, st);
        assert(s1[i].id == id);
        assert(contains_id(s1, id));
        let j = index_of_id(s1, id);
        assert(s1[j].id == id);
        if j != i {
            assert(s1[j] == s[j]);
            assert(s[j].id == s[i].id);
        }
        assert(j == i);
        assert(spec_set_health(s1, id, st) =~= s1);
    }
}

/// Snapshot isolation of a health write: it moves no weight, no address and
/// no identifier, and touches no other entry at all.
pub proof fn lemma_set_health_isolated(s: Seq<UpstreamView>, id: Seq<char>, st: HealthStatus)
    ensures
        spec_set_health(s, id, st).len() == s.len(),
        forall|j: int|
            0 <= j < s.len() ==> {
                let t = #[trigger] spec_set_health(s, id, st)[j];
                t.id == s[j].id && t.weight == s[j].weight && t.address == s[j].address
            },
        forall|j: int|
            0 <= j < s.len() && s[j].id != id ==> #[trigger] spec_set_health(s, id, st)[j]
                == s[j],
{
    if contains_id(s, id) {
        let i = index_of_id(s, id);
        assert(s[i].id == id);
    }
}

/// The live set of upstreams. Mutations produce the next complete snapshot;
/// the routing path only reads.
pub struct RegistrySnapshot {
    pub upstreams: Vec<Upstream>,
}

impl View for RegistrySnapshot {
    type V = Seq<UpstreamView>;

    open spec fn view(&self) -> Seq<UpstreamView> {
        self.upstreams@.map_values(|u: Upstream| u@)
    }
}

impl RegistrySnapshot {
    /// An empty registry.
    pub fn new() -> (r: RegistrySnapshot)
        ensures
            r@.len() == 0,
            registry_wf(r@),
    {
        let r = RegistrySnapshot { upstreams: Vec::new() };
        proof {
            assert(r@ =~= Seq::<UpstreamView>::empty());
        }
        r
    }

    /// How many upstreams the snapshot holds.
    pub fn len(&self) -> (n: usize)
        ensures
            n == self@.len(),
    {
        self.upstreams.len()
    }

    /// The position of the upstream carrying the identifier, if any.
    pub fn find(&self, id: &str) -> (r: Option<usize>)
        requires
            registry_wf(self@),
        ensures
            match r {
                Some(i) => contains_id(self@, id@) && i == index_of_id(self@, id@) && i
                    < self@.len() && self@[i as int].id == id@,
                None => !contains_id(self@, id@),
            },
    {
        let mut i: usize = 0;
        while i < self.upstreams.len()
            invariant
                registry_wf(self@),
                0 <= i <= self@.len(),
                self@.len() == self.upstreams@.len(),
                forall|j: int| 0 <= j < i ==> self@[j].id != id@,
            decreases self@.len() - i,
        {
            if str_eq(self.upstreams[i].id.as_str(), id) {
                proof {
                    let k = index_of_id(self@, id@);
                    assert(self@[i as int].id == id@);
                    assert(self@[k].id == id@);
                }
                return Some(i);
            }
            i = i + 1;
        }
        None
    }

    /// A borrowed read of the upstream carrying the identifier.
    pub fn get(&self, id: &str) -> (r: Option<&Upstream>)
        requires
            registry_wf(self@),
        ensures
            match r {
                Some(u) => contains_id(self@, id@) && u@ == self@[index_of_id(self@, id@)],
                None => !contains_id(self@, id@),
            },
    {
        match self.find(id) {
            Some(i) => Some(&self.upstreams[i]),
            None => None,
        }
    }

    /// Adds the upstream, or replaces the entry carrying its identifier.
    /// One complete snapshot becomes the next: the new entry's weight, address
    /// and health flag land together.
    pub fn upsert(&mut self, u: Upstream)
        requires
            registry_wf(old(self)@),
            u.weight >= 1,
        ensures
            final(self)@ == spec_upsert(old(self)@, u@),
            registry_wf(final(self)@),
    {
        let ghost before = self@;
        match self.find(u.id.as_str()) {
            Some(i) => {
                self.upstreams[i] = u;
                proof {
                    assert(self@ =~= before.update(index_of_id(before, u@.id), u@));
                }
            },
            None => {
                self.upstreams.push(u);
                proof {
                    assert(self@ =~= before.push(u@));
                }
            },
        }
    }

    /// Takes the upstream carrying the identifier out; a second removal of the
    /// same identifier finds nothing and changes nothing.
    pub fn remove(&mut self, id: &str)
        requires
            registry_wf(old(self)@),
        ensures
            final(self)@ == spec_remove(old(self)@, id@),
            registry_wf(final(self)@),
    {
        let ghost before = self@;
        match self.find(id) {
            Some(i) => {
                let _ = self.upstreams.remove(i);
                proof {
                    assert(self@ =~= before.remove(index_of_id(before, id@)));
                    lemma_remove_erases(before, id@);
                }
            },
            None => {},
        }
    }

    /// Applies one health result: exactly the flagged entry's health moves,
    /// and nothing else in the snapshot does. Absent identifiers are ignored,
    /// and repeating a verdict changes nothing.
    pub fn set_health(&mut self, id: &str, status: HealthStatus)
        requires
            registry_wf(old(self)@),
        ensures
            final(self)@ == spec_set_health(old(self)@, id@, status),
            registry_wf(final(self)@),
    {
        let ghost before = self@;
        match self.find(id) {
            Some(i) => {
                let flag = match status {
                    HealthStatus::Healthy => true,
                    HealthStatus::Unhealthy => false,
                };
                let entry = &self.upstreams[i];
                let nu = Upstream {
                    id: entry.id.clone(),
                    address: entry.address.clone(),
                    weight: entry.weight,
                    healthy: flag,
                };
                self.upstreams[i] = nu;
                proof {
                    let k = index_of_id(before, id@);
                    assert(self@ =~= before.update(
                        k,
                        UpstreamView { healthy: status == HealthStatus::Healthy, ..before[k] },
                    ));
                    assert forall|a: int, b: int|
                        0 <= a < self@.len() && 0 <= b < self@.len() && a != b
                        implies self@[a].id != self@[b].id by {
                        assert(self@[a].id == before[a].id);
                        assert(self@[b].id == before[b].id);
                    }
                    assert forall|a: int| 0 <= a < self@.len() implies (#[trigger] self@[a].weight)
                        >= 1 by {
                        assert(self@[a].weight == before[a].weight);
                    }
                }
            },
            None => {},
        }
    }
}

} // verus!
