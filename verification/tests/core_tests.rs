use rustng::admin::AdminApi;
use rustng::context::{RequestContext, ResponseContext};
use rustng::control::{ControlPlane, NoopControlPlane};
use rustng::engine::Metrics;
use rustng::filter::{BasicFilter, Filter, FilterResult};
use rustng::http::HttpProxy;
use rustng::registry::{FlagHealthChecker, HealthChecker, HealthStatus, Upstream};
use rustng::sd::{NoopSd, ServiceDiscovery};
use std::sync::Mutex;

#[test]
fn health_is_ok() {
    let api = AdminApi::new();
    assert_eq!(api.health(), "ok");
}

#[test]
fn noop_apply_config_ok() {
    let cp = NoopControlPlane;
    assert!(cp.apply_config(b"{}").is_ok());
}

#[test]
fn filter_should_mutate_contexts() {
    let f_req = BasicFilter::SetRequestHeader { name: "x-test".to_string(), value: "req".to_string() };
    let f_resp = BasicFilter::SetResponseHeader { name: "x-test".to_string(), value: "resp".to_string() };
    let mut req = RequestContext::new("/".to_string());
    let mut resp = ResponseContext::new(200);
    assert_eq!(f_req.on_request(&mut req), FilterResult::Continue);
    assert_eq!(f_resp.on_response(&mut resp), FilterResult::Continue);
    assert_eq!(req.get_header("x-test").unwrap().as_str(), "req");
    assert_eq!(resp.get_header("x-test").unwrap().as_str(), "resp");
}

#[test]
fn health_checker_reports_healthy() {
    let hc = FlagHealthChecker;
    let upstream = Upstream {
        id: "u1".to_string(),
        address: "127.0.0.1:80".to_string(),
        weight: 1,
        healthy: true,
    };
    assert_eq!(hc.check(&upstream), HealthStatus::Healthy);
}

struct TestMetrics {
    counters: Mutex<Vec<(String, u64)>>,
    histograms: Mutex<Vec<(String, u64)>>,
}

impl TestMetrics {
    fn new() -> Self {
        Self { counters: Mutex::new(vec![]), histograms: Mutex::new(vec![]) }
    }
}

impl Metrics for TestMetrics {
    fn incr_counter(&self, name: &str, value: u64) {
        self.counters.lock().unwrap().push((name.to_string(), value));
    }
    fn observe_histogram(&self, name: &str, value: u64) {
        self.histograms.lock().unwrap().push((name.to_string(), value));
    }
}

#[test]
fn metrics_collects_values() {
    let m = TestMetrics::new();
    m.incr_counter("requests", 1);
    m.observe_histogram("latency_ms", 12);
    assert_eq!(m.counters.lock().unwrap().len(), 1);
    assert_eq!(m.histograms.lock().unwrap().len(), 1);
}

#[test]
fn noop_sd_start_should_not_panic() {
    let sd = NoopSd;
    sd.start();
}

#[test]
fn apply_filter_mutates() {
    let p = HttpProxy::new();
    let fx = BasicFilter::SetRequestHeader { name: "x".to_string(), value: "1".to_string() };
    let fy = BasicFilter::SetResponseHeader { name: "y".to_string(), value: "2".to_string() };
    let mut req = RequestContext::default();
    let mut resp = ResponseContext::default();
    p.apply_filter(&fx, &mut req, &mut resp);
    p.apply_filter(&fy, &mut req, &mut resp);
    assert_eq!(req.get_header("x").unwrap().as_str(), "1");
    assert_eq!(resp.get_header("y").unwrap().as_str(), "2");
}

#[test]
fn headers_resolve_last_write() {
    let mut req = RequestContext::new("/".to_string());
    req.set_header("k".to_string(), "first".to_string());
    req.set_header("k".to_string(), "second".to_string());
    assert_eq!(req.get_header("k").unwrap().as_str(), "second");
    req.remove_header("k");
    assert!(req.get_header("k").is_none());
    assert!(req.get_header("absent").is_none());
}

#[test]
fn correlation_survives_the_filter_phase() {
    let mut req = RequestContext::new("/svc".to_string());
    req.set_correlation(41);
    let f = BasicFilter::SetRequestHeader { name: "h".to_string(), value: "v".to_string() };
    let _ = f.on_request(&mut req);
    assert_eq!(req.correlation_id, 41);
}

#[test]
fn path_rewrite_and_halt_filters() {
    let rw = BasicFilter::RewritePath { path: "/new".to_string() };
    let halt = BasicFilter::Halt;
    let mut req = RequestContext::new("/old".to_string());
    assert_eq!(rw.on_request(&mut req), FilterResult::Continue);
    assert_eq!(req.path, "/new");
    assert_eq!(halt.on_request(&mut req), FilterResult::Stop);
    assert_eq!(req.path, "/new");
}

#[test]
fn response_round_trip_leaves_request_copy() {
    // A request carrying "x-test": "req" fed through a filter that writes
    // "x-test" -> "resp" in the response phase: the response carries "resp",
    // the request still carries "req".
    let mut req = RequestContext::new("/svc".to_string());
    req.set_header("x-test".to_string(), "req".to_string());
    let chain = vec![BasicFilter::SetResponseHeader {
        name: "x-test".to_string(),
        value: "resp".to_string(),
    }];
    let stopped = rustng::filter::run_request_filters(&chain, &mut req);
    assert!(stopped.is_none());
    let mut resp = ResponseContext::new(200);
    let rstop = rustng::filter::run_response_filters(&chain, &mut resp);
    assert!(rstop.is_none());
    assert_eq!(resp.get_header("x-test").unwrap().as_str(), "resp");
    assert_eq!(req.get_header("x-test").unwrap().as_str(), "req");
}
