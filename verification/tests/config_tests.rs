use rustng::config::{ConfigEvent, ConfigManager, ConfigSubscriber, EventLog, ProxyState};
use rustng::context::RequestContext;
use rustng::filter::{BasicFilter, Filter};
use rustng::plugins::{bind_connection, BasicFilterFactory, NoopFilter, PluginFactory};
use rustng::registry::{RegistrySnapshot, Upstream};
use rustng::sd::{apply_sd_event, SdEvent};

fn upstream(id: &str, weight: u32, healthy: bool) -> Upstream {
    Upstream { id: id.to_string(), address: "10.0.0.2:80".to_string(), weight, healthy }
}

#[test]
fn events_are_delivered_to_subscribers() {
    let mut mgr: ConfigManager<EventLog> = ConfigManager::new();
    mgr.subscribe(EventLog::new());

    mgr.emit(&ConfigEvent::RouteAdded { route: "/a".to_string() });
    mgr.emit(&ConfigEvent::PluginReload);

    let got = mgr.subscribers[0].entries.clone();
    assert_eq!(got, vec!["add:/a".to_string(), "plugin".to_string()]);
}

#[test]
fn removal_event_is_idempotent() {
    let mut reg = RegistrySnapshot::new();
    reg.upsert(upstream("u1", 2, true));
    reg.upsert(upstream("u2", 5, false));
    let gone = SdEvent::UpstreamRemoved("u1".to_string());
    apply_sd_event(&mut reg, &gone);
    assert_eq!(reg.len(), 1);
    assert!(reg.get("u1").is_none());
    apply_sd_event(&mut reg, &gone);
    assert_eq!(reg.len(), 1);
    assert!(reg.get("u1").is_none());
    let u2 = reg.get("u2").unwrap();
    assert_eq!(u2.weight, 5);
    assert!(!u2.healthy);
}

#[test]
fn discovery_add_respects_positive_weight() {
    let mut reg = RegistrySnapshot::new();
    apply_sd_event(&mut reg, &SdEvent::UpstreamAdded(upstream("u1", 4, true)));
    assert_eq!(reg.len(), 1);
    assert_eq!(reg.get("u1").unwrap().weight, 4);
    // A zero-weight upstream is ignored: weights are positive by contract.
    apply_sd_event(&mut reg, &SdEvent::UpstreamAdded(upstream("u2", 0, true)));
    assert_eq!(reg.len(), 1);
    assert!(reg.get("u2").is_none());
}

#[test]
fn config_events_mutate_proxy_state() {
    let mut state = ProxyState::new();
    state.on_event(&ConfigEvent::RouteAdded { route: "/svc".to_string() });
    state.on_event(&ConfigEvent::UpstreamUpdated { upstream: upstream("u1", 1, true) });
    state.router.bind_upstream("/svc", "u1".to_string());
    let req = RequestContext::new("/svc/a".to_string());
    let d = state.router.choose_upstream(&req, &state.registry).unwrap();
    assert_eq!(d.upstream_id, "u1");
    state.on_event(&ConfigEvent::RouteRemoved { route: "/svc".to_string() });
    assert!(state.router.choose_upstream(&req, &state.registry).is_none());
}

fn tag_of(chain: &[BasicFilter]) -> String {
    let mut req = RequestContext::new("/".to_string());
    for f in chain {
        let _ = f.on_request(&mut req);
    }
    req.get_header("tag").map(|v| v.clone()).unwrap_or_default()
}

#[test]
fn plugin_reload_spares_bound_connections() {
    // A reload must not alter filters already bound to accepted connections,
    // and must apply to connections accepted after it.
    let mut state = ProxyState::new();
    state.stage_plugins(vec![BasicFilterFactory {
        template: BasicFilter::SetRequestHeader {
            name: "tag".to_string(),
            value: "v1".to_string(),
        },
    }]);
    state.on_event(&ConfigEvent::PluginReload);
    let early_connection = state.bind_connection();

    state.stage_plugins(vec![BasicFilterFactory {
        template: BasicFilter::SetRequestHeader {
            name: "tag".to_string(),
            value: "v2".to_string(),
        },
    }]);
    state.on_event(&ConfigEvent::PluginReload);
    let late_connection = state.bind_connection();

    assert_eq!(tag_of(&early_connection), "v1");
    assert_eq!(tag_of(&late_connection), "v2");
}

#[test]
fn factories_stamp_fresh_instances() {
    let factory = BasicFilterFactory {
        template: BasicFilter::SetRequestHeader { name: "n".to_string(), value: "v".to_string() },
    };
    let chain = bind_connection(&vec![factory.duplicate(), factory]);
    assert_eq!(chain.len(), 2);
    let noop = NoopFilter;
    let mut req = RequestContext::new("/".to_string());
    let _ = noop.on_request(&mut req);
    assert!(req.get_header("n").is_none());
    let _ = chain[0].on_request(&mut req);
    assert_eq!(req.get_header("n").unwrap().as_str(), "v");
}
