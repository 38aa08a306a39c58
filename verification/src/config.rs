//! Configuration events, the process-wide proxy state they mutate, and the
//! synchronous pub/sub fan-out that delivers them.
//!
//! Each event turns one complete state value into the next complete state
//! value; in-flight requests keep the snapshot and the filter chain they were
//! given, so no event ever reaches a request half-applied.

use vstd::prelude::*;
use vstd::string::StringExecFns;
use crate::registry::{Upstream, UpstreamView, RegistrySnapshot, registry_wf, spec_upsert};
use crate::router::{WeightedRouter, RouteView, router_wf, route_pos};
use crate::filter::BasicFilter;
use crate::plugins::{BasicFilterFactory, PluginFactory, bind_connection};

verus! {

/// What the configuration collaborator announces.
#[derive(Debug, Clone)]
pub enum ConfigEvent {
    RouteAdded { route: String },
    RouteRemoved { route: String },
    UpstreamUpdated { upstream: Upstream },
    PluginReload,
}

/// A receiver of configuration events. `next` states the exact effect one
/// event has on the receiver's abstract value, and `ready` what the receiver
/// needs of its own state.
pub trait ConfigSubscriber: View + Sized {
    /// What the receiver needs of its own state.
    spec fn ready(&self) -> bool;

    /// The receiver's abstract value after one event.
    spec fn next(pre: Self::V, event: &ConfigEvent) -> Self::V;

    /// Delivers one event.
    fn on_event(&mut self, event: &ConfigEvent)
        requires
            old(self).ready(),
        ensures
            final(self).ready(),
            final(self)@ == Self::next(old(self)@, event),
    ;
}

/// Delivers configuration events to an ordered list of subscribers,
/// synchronously and fire-and-forget, in subscription order.
pub struct ConfigManager<S: ConfigSubscriber> {
    pub subscribers: Vec<S>,
}

impl<S: ConfigSubscriber> ConfigManager<S> {
    /// A manager with no subscribers yet.
    pub fn new() -> (m: Self)
        ensures
            m.subscribers@.len() == 0,
    {
        ConfigManager { subscribers: Vec::new() }
    }

    /// Appends a subscriber; it receives every event emitted from now on,
    /// after all earlier subscribers.
    pub fn subscribe(&mut self, sub: S)
        ensures
            final(self).subscribers@ == old(self).subscribers@.push(sub),
    {
        self.subscribers.push(sub);
    }

    /// Delivers one event to every subscriber, in subscription order; each
    /// subscriber moves by exactly its own `next` step.
    pub fn emit(&mut self, event: &ConfigEvent)
        requires
            forall|i: int|
                0 <= i < old(self).subscribers@.len() ==> (#[trigger] old(
                    self,
                ).subscribers@[i]).ready(),
        ensures
            final(self).subscribers@.len() == old(self).subscribers@.len(),
            forall|i: int|
                0 <= i < old(self).subscribers@.len()
                    ==> (#[trigger] final(self).subscribers@[i])@ == S::next(
                    old(self).subscribers@[i]@,
                    event,
                ),
            forall|i: int|
                0 <= i < old(self).subscribers@.len()
                    ==> (#[trigger] final(self).subscribers@[i]).ready(),
    {
        let ghost orig = self.subscribers@;
        let mut i: usize = 0;
        while i < self.subscribers.len()
            invariant
                0 <= i <= orig.len(),
                self.subscribers@.len() == orig.len(),
                forall|j: int|
                    i <= j < orig.len() ==> #[trigger] self.subscribers@[j] == orig[j],
                forall|j: int|
                    0 <= j < i ==> (#[trigger] self.subscribers@[j])@ == S::next(
                        orig[j]@,
                        event,
                    ),
                forall|j: int| 0 <= j < i ==> (#[trigger] self.subscribers@[j]).ready(),
                forall|j: int| i <= j < orig.len() ==> (#[trigger] orig[j]).ready(),
            decreases orig.len() - i,
        {
            let mut s = self.subscribers.remove(i);
            s.on_event(event);
            self.subscribers.insert(i, s);
            i = i + 1;
        }
    }
}

impl<S: ConfigSubscriber> Default for ConfigManager<S> {
    /// A manager with no subscribers yet.
    fn default() -> (m: Self)
        ensures
            m.subscribers@.len() == 0,
    {
        ConfigManager { subscribers: Vec::new() }
    }
}

/// The process-wide proxy state configuration events mutate: the live
/// registry, the route table, and the active and staged plugin-factory lists.
pub struct ProxyState {
    pub registry: RegistrySnapshot,
    pub router: WeightedRouter,
    pub active_factories: Vec<BasicFilterFactory>,
    pub staged_factories: Vec<BasicFilterFactory>,
}

/// Abstract value of the proxy state.
pub ghost struct ProxyStateView {
    pub registry: Seq<UpstreamView>,
    pub routes: Seq<RouteView>,
    pub active: Seq<BasicFilterFactory>,
    pub staged: Seq<BasicFilterFactory>,
}

impl View for ProxyState {
    type V = ProxyStateView;

    open spec fn view(&self) -> ProxyStateView {
        ProxyStateView {
            registry: self.registry@,
            routes: self.router@,
            active: self.active_factories@,
            staged: self.staged_factories@,
        }
    }
}

/// The proxy state after one configuration event.
///
/// A route add appends a route bound to no upstreams yet; a route removal
/// takes the first route of that prefix out, or nothing when none carries it.
/// An upstream update must carry a positive weight; one without is ignored. A
/// plugin reload promotes the staged factory list to active; chains already
/// bound to connections are owned by them and stay as they are.
pub open spec fn spec_apply_config(pre: ProxyStateView, event: &ConfigEvent) -> ProxyStateView {
    match event {
        ConfigEvent::RouteAdded { route } => ProxyStateView {
            routes: pre.routes.push(
                RouteView { prefix: route@, upstream_ids: Seq::empty(), cursor: 0u64 },
            ),
            ..pre
        },
        ConfigEvent::RouteRemoved { route } => ProxyStateView {
            routes: match route_pos(pre.routes, route@) {
                Some(ri) => pre.routes.remove(ri),
                None => pre.routes,
            },
            ..pre
        },
        ConfigEvent::UpstreamUpdated { upstream } => if upstream.weight >= 1 {
            ProxyStateView { registry: spec_upsert(pre.registry, upstream@), ..pre }
        } else {
            pre
        },
        ConfigEvent::PluginReload => ProxyStateView { active: pre.staged, ..pre },
    }
}

impl ProxyState {
    /// An empty proxy state: no upstreams, no routes, no plugins.
    pub fn new() -> (s: ProxyState)
        ensures
            s@.registry.len() == 0,
            s@.routes.len() == 0,
            s@.active.len() == 0,
            s@.staged.len() == 0,
            s.ready(),
    {
        ProxyState {
            registry: RegistrySnapshot::new(),
            router: WeightedRouter::new(),
            active_factories: Vec::new(),
            staged_factories: Vec::new(),
        }
    }

    /// Replaces the staged factory list; the active list, and with it every
    /// connection bound so far, is untouched until the next plugin reload.
    pub fn stage_plugins(&mut self, factories: Vec<BasicFilterFactory>)
        ensures
            final(self)@ == (ProxyStateView { staged: factories@, ..old(self)@ }),
    {
        self.staged_factories = factories;
    }

    /// Binds one connection to fresh instances of the currently active
    /// plugins. The chain is the connection's own: later reloads or stages
    /// do not reach it.
    pub fn bind_connection(&self) -> (chain: Vec<BasicFilter>)
        ensures
            chain@ == self@.active.map_values(|p: BasicFilterFactory| p.produces()),
    {
        bind_connection(&self.active_factories)
    }
}

impl ConfigSubscriber for ProxyState {
    open spec fn ready(&self) -> bool {
        registry_wf(self.registry@) && router_wf(self.router@)
    }

    open spec fn next(pre: ProxyStateView, event: &ConfigEvent) -> ProxyStateView {
        spec_apply_config(pre, event)
    }

    fn on_event(&mut self, event: &ConfigEvent) {
        match event {
            ConfigEvent::RouteAdded { route } => {
                self.router.add_route(route.clone());
            },
            ConfigEvent::RouteRemoved { route } => {
                self.router.remove_route(route.as_str());
            },
            ConfigEvent::UpstreamUpdated { upstream } => {
                if upstream.weight >= 1 {
                    self.registry.upsert(upstream.duplicate());
                }
            },
            ConfigEvent::PluginReload => {
                let mut fresh: Vec<BasicFilterFactory> = Vec::new();
                let mut i: usize = 0;
                while i < self.staged_factories.len()
                    invariant
                        0 <= i <= self.staged_factories@.len(),
                        fresh@.len() == i,
                        forall|j: int|
                            0 <= j < i ==> #[trigger] fresh@[j] == self.staged_factories@[j],
                    decreases self.staged_factories@.len() - i,
                {
                    let f = self.staged_factories[i].duplicate();
                    fresh.push(f);
                    i = i + 1;
                }
                proof {
                    assert(fresh@ =~= self.staged_factories@);
                }
                self.active_factories = fresh;
            },
        }
    }
}

/// A subscriber that keeps a trace of the events it saw, one tag per event.
pub struct EventLog {
    pub entries: Vec<String>,
}

/// The tag an event is logged under.
pub open spec fn event_tag(event: &ConfigEvent) -> Seq<char> {
    match event {
        ConfigEvent::RouteAdded { route } => "add:"@ + route@,
        ConfigEvent::RouteRemoved { route } => "del:"@ + route@,
        ConfigEvent::UpstreamUpdated { upstream } => "up:"@ + upstream.id@,
        ConfigEvent::PluginReload => "plugin"@,
    }
}

impl View for EventLog {
    type V = Seq<Seq<char>>;

    open spec fn view(&self) -> Seq<Seq<char>> {
        self.entries@.map_values(|s: String| s@)
    }
}

impl EventLog {
    /// An empty trace.
    pub fn new() -> (l: EventLog)
        ensures
            l@.len() == 0,
    {
        let l = EventLog { entries: Vec::new() };
        proof {
            assert(l@ =~= Seq::<Seq<char>>::empty());
        }
        l
    }
}

impl ConfigSubscriber for EventLog {
    open spec fn ready(&self) -> bool {
        true
    }

    open spec fn next(pre: Seq<Seq<char>>, event: &ConfigEvent) -> Seq<Seq<char>> {
        pre.push(event_tag(event))
    }

    fn on_event(&mut self, event: &ConfigEvent) {
        let ghost before = self@;
        let tag = match event {
            ConfigEvent::RouteAdded { route } => String::from_str("add:").concat(route.as_str()),
            ConfigEvent::RouteRemoved { route } => String::from_str("del:").concat(
                route.as_str(),
            ),
            ConfigEvent::UpstreamUpdated { upstream } => String::from_str("up:").concat(
                upstream.id.as_str(),
            ),
            ConfigEvent::PluginReload => String::from_str("plugin"),
        };
        self.entries.push(tag);
        proof {
            assert(self@ =~= before.push(self.entries@.last()@));
        }
    }
}

} // verus!
