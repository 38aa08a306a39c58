//! Service-discovery events and their effect on the registry.

use vstd::prelude::*;
use crate::registry::{
    Upstream, UpstreamView, RegistrySnapshot, registry_wf, spec_upsert, spec_remove,
    lemma_remove_erases,
};

verus! {

/// What service discovery reports: a backend appeared, or one went away.
#[derive(Debug, Clone)]
pub enum SdEvent {
    UpstreamAdded(Upstream),
    UpstreamRemoved(String),
}

/// The registry snapshot after one service-discovery event. An added upstream
/// must carry a positive weight; one without is ignored. A removal of an
/// absent identifier changes nothing.
pub open spec fn spec_apply_sd(s: Seq<UpstreamView>, event: SdEvent) -> Seq<UpstreamView> {
    match event {
        SdEvent::UpstreamAdded(u) => if u.weight >= 1 {
            spec_upsert(s, u@)
        } else {
            s
        },
        SdEvent::UpstreamRemoved(id) => spec_remove(s, id@),
    }
}

/// Idempotence of removal: delivering the same removal event twice leaves the
/// registry exactly as delivering it once does.
pub proof fn lemma_sd_removal_idempotent(s: Seq<UpstreamView>, event: SdEvent)
    requires
        registry_wf(s),
        event is UpstreamRemoved,
    ensures
        spec_apply_sd(spec_apply_sd(s, event), event) == spec_apply_sd(s, event),
{
    match event {
        SdEvent::UpstreamRemoved(id) => {
            lemma_remove_erases(s, id@);
        },
        SdEvent::UpstreamAdded(_) => {},
    }
}

/// Applies one service-discovery event to the registry.
pub fn apply_sd_event(reg: &mut RegistrySnapshot, event: &SdEvent)
    requires
        registry_wf(old(reg)@),
    ensures
        final(reg)@ == spec_apply_sd(old(reg)@, *event),
        registry_wf(final(reg)@),
{
    match event {
        SdEvent::UpstreamAdded(u) => {
            if u.weight >= 1 {
                reg.upsert(u.duplicate());
            }
        },
        SdEvent::UpstreamRemoved(id) => {
            reg.remove(id.as_str());
        },
    }
}

/// A source of service-discovery events, run by the process owner; it feeds
/// `apply_sd_event` from outside the request path.
pub trait ServiceDiscovery {
    /// Starts delivering events.
    fn start(&self);
}

/// A discovery source that never reports anything.
pub struct NoopSd;

impl ServiceDiscovery for NoopSd {
    fn start(&self) {
    }
}

} // verus!
