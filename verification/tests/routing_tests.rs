use rustng::context::{RequestContext, ResponseContext};
use rustng::engine::{
    finish_response, plan_request, EngineState, NullMetrics, RoutePlan, BAD_GATEWAY_STATUS,
    LOCAL_REJECT_STATUS,
};
use rustng::filter::BasicFilter;
use rustng::registry::{HealthStatus, RegistrySnapshot, Upstream};
use rustng::router::{BoundRouter, Router, WeightedRouter};

fn upstream(id: &str, weight: u32, healthy: bool) -> Upstream {
    Upstream {
        id: id.to_string(),
        address: format!("10.0.0.1:{}", 8000),
        weight,
        healthy,
    }
}

fn table(prefix: &str, ids: &[&str]) -> WeightedRouter {
    let mut t = WeightedRouter::new();
    t.add_route(prefix.to_string());
    for id in ids {
        t.bind_upstream(prefix, id.to_string());
    }
    t
}

#[test]
fn router_should_route_when_path_matches() {
    let mut reg = RegistrySnapshot::new();
    reg.upsert(upstream("u1", 1, true));
    let r = BoundRouter { table: table("/svc", &["u1"]), registry: reg };
    let req = RequestContext::new("/svc/a".to_string());
    let miss = RequestContext::new("/healthz".to_string());
    let d = r.choose_upstream(&req).unwrap();
    assert_eq!(d.upstream_id, "u1");
    assert!(r.choose_upstream(&miss).is_none());
}

#[test]
fn all_unhealthy_upstreams_route_nothing() {
    let mut reg = RegistrySnapshot::new();
    reg.upsert(upstream("u1", 1, false));
    reg.upsert(upstream("u2", 3, false));
    let mut t = table("/svc", &["u1", "u2"]);
    let req = RequestContext::new("/svc/a".to_string());
    assert!(t.choose_upstream(&req, &reg).is_none());
    assert!(t.peek_upstream(&req, &reg).is_none());
}

#[test]
fn weighted_rotation_matches_weights() {
    // Weights 1 and 3: over a hundred full rotations, the observed split is
    // exactly 1 : 3.
    let mut reg = RegistrySnapshot::new();
    reg.upsert(upstream("u1", 1, true));
    reg.upsert(upstream("u2", 3, true));
    let mut t = table("/svc", &["u1", "u2"]);
    let req = RequestContext::new("/svc/a".to_string());
    let mut picked_u1 = 0;
    let mut picked_u2 = 0;
    for _ in 0..400 {
        let d = t.choose_upstream(&req, &reg).unwrap();
        match d.upstream_id.as_str() {
            "u1" => picked_u1 += 1,
            "u2" => picked_u2 += 1,
            other => panic!("unknown upstream {other}"),
        }
    }
    assert_eq!(picked_u1, 100);
    assert_eq!(picked_u2, 300);
}

#[test]
fn rotation_spreads_equal_weights() {
    let mut reg = RegistrySnapshot::new();
    reg.upsert(upstream("u1", 1, true));
    reg.upsert(upstream("u2", 1, true));
    let mut t = table("/", &["u1", "u2"]);
    let req = RequestContext::new("/a".to_string());
    let first = t.choose_upstream(&req, &reg).unwrap();
    let second = t.choose_upstream(&req, &reg).unwrap();
    assert_ne!(first.upstream_id, second.upstream_id);
}

#[test]
fn unhealthy_candidate_is_skipped() {
    // Route /svc bound to u1 (weight 1, healthy) and u2 (weight 1,
    // unhealthy): every request to /svc/a lands on u1.
    let mut reg = RegistrySnapshot::new();
    reg.upsert(upstream("u1", 1, true));
    reg.upsert(upstream("u2", 1, false));
    let mut t = table("/svc", &["u1", "u2"]);
    let req = RequestContext::new("/svc/a".to_string());
    for _ in 0..5 {
        let d = t.choose_upstream(&req, &reg).unwrap();
        assert_eq!(d.upstream_id, "u1");
    }
}

#[test]
fn set_health_flips_only_health() {
    let mut reg = RegistrySnapshot::new();
    reg.upsert(upstream("u1", 7, true));
    reg.upsert(upstream("u2", 2, true));
    reg.set_health("u1", HealthStatus::Unhealthy);
    let u1 = reg.get("u1").unwrap();
    assert!(!u1.healthy);
    assert_eq!(u1.weight, 7);
    assert_eq!(u1.address, "10.0.0.1:8000");
    let u2 = reg.get("u2").unwrap();
    assert!(u2.healthy);
    assert_eq!(u2.weight, 2);
    // Repeating the verdict changes nothing.
    reg.set_health("u1", HealthStatus::Unhealthy);
    assert!(!reg.get("u1").unwrap().healthy);
    assert_eq!(reg.len(), 2);
}

#[test]
fn upsert_replaces_by_identifier() {
    let mut reg = RegistrySnapshot::new();
    reg.upsert(upstream("u1", 1, true));
    reg.upsert(upstream("u1", 9, false));
    assert_eq!(reg.len(), 1);
    let u = reg.get("u1").unwrap();
    assert_eq!(u.weight, 9);
    assert!(!u.healthy);
}

#[test]
fn stopped_chain_answers_locally_without_routing() {
    // The second filter stops the chain: the third never runs, the router is
    // never consulted, and the engine answers locally.
    let mut reg = RegistrySnapshot::new();
    reg.upsert(upstream("u1", 1, true));
    let mut t = table("/", &["u1"]);
    let chain = vec![
        BasicFilter::SetRequestHeader { name: "a".to_string(), value: "1".to_string() },
        BasicFilter::Halt,
        BasicFilter::SetRequestHeader { name: "b".to_string(), value: "2".to_string() },
    ];
    let mut req = RequestContext::new("/x".to_string());
    let (plan, state) = plan_request(&chain, &mut t, &reg, &NullMetrics, &mut req);
    assert_eq!(state, EngineState::LocallyAnswered);
    match plan {
        RoutePlan::Local(resp) => assert_eq!(resp.status, LOCAL_REJECT_STATUS),
        RoutePlan::Forward(_) => panic!("stopped request must not be forwarded"),
    }
    assert_eq!(req.get_header("a").unwrap().as_str(), "1");
    assert!(req.get_header("b").is_none());
    // The route's cursor never moved: the next planned request still gets the
    // rotation's first pick.
    let mut req2 = RequestContext::new("/x".to_string());
    let (plan2, state2) = plan_request(&Vec::<BasicFilter>::new(), &mut t, &reg, &NullMetrics, &mut req2);
    assert_eq!(state2, EngineState::Routed);
    match plan2 {
        RoutePlan::Forward(d) => assert_eq!(d.upstream_id, "u1"),
        RoutePlan::Local(_) => panic!("healthy route must forward"),
    }
}

#[test]
fn routing_failure_answers_bad_gateway() {
    let reg = RegistrySnapshot::new();
    let mut t = WeightedRouter::new();
    let chain: Vec<BasicFilter> = vec![];
    let mut req = RequestContext::new("/anything".to_string());
    let (plan, state) = plan_request(&chain, &mut t, &reg, &NullMetrics, &mut req);
    assert_eq!(state, EngineState::LocallyAnswered);
    match plan {
        RoutePlan::Local(resp) => assert_eq!(resp.status, BAD_GATEWAY_STATUS),
        RoutePlan::Forward(_) => panic!("nothing to forward to"),
    }
}

#[test]
fn response_phase_always_runs() {
    let chain = vec![BasicFilter::SetResponseHeader {
        name: "via".to_string(),
        value: "proxy".to_string(),
    }];
    let mut resp = ResponseContext::new(204);
    let state = finish_response(&chain, &NullMetrics, &mut resp);
    assert_eq!(state, EngineState::Completed);
    assert_eq!(resp.status, 204);
    assert_eq!(resp.get_header("via").unwrap().as_str(), "proxy");
}
