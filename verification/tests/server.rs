use cello::server::{after_phase, body_failure_response, handler_timeout_response, unrouted_response, BodyFailure, DispatchStep, Phase, Pipeline, StageResult};
use cello::http::JsonValue;
use cello::server::{
    body_read_limit, body_too_large, parse_query, response_from_record, DrainStep, ServerConfig, ServerMetrics,
    ShutdownCoordinator,
};
use cello::strmap::StrMap;
use cello::time::Duration;

#[test]
fn test_server_config() {
    let config = ServerConfig::new("0.0.0.0", 8080)
        .workers(4)
        .max_connections(5000)
        .shutdown_timeout(Duration::from_secs(60));

    assert_eq!(config.host, "0.0.0.0");
    assert_eq!(config.port, 8080);
    assert_eq!(config.workers, 4);
    assert_eq!(config.max_connections, 5000);
}

#[test]
fn test_server_metrics() {
    let mut metrics = ServerMetrics::new();

    metrics.inc_requests();
    metrics.inc_requests();
    metrics.inc_connections();

    assert_eq!(metrics.total_requests, 2);
    assert_eq!(metrics.active_connections, 1);

    metrics.dec_connections();
    assert_eq!(metrics.active_connections, 0);
}

#[test]
fn metrics_counters_and_latency() {
    let mut m = ServerMetrics::new();
    m.add_bytes_received(100);
    m.add_bytes_sent(200);
    m.inc_errors();
    assert_eq!(m.bytes_received, 100);
    assert_eq!(m.bytes_sent, 200);
    assert_eq!(m.total_errors, 1);
    assert_eq!(m.avg_latency().as_millis(), 0);
    m.record_latency(Duration::from_millis(10));
    m.record_latency(Duration::from_millis(20));
    assert_eq!(m.latencies.len(), 2);
    assert_eq!(m.avg_latency().as_millis(), 15);
    m.inc_requests();
    m.record_latency(Duration::from_millis(30));
    assert_eq!(m.latencies.len(), 2);
    for _ in 0..1005 {
        m.total_requests = 64;
        m.record_latency(Duration::from_nanos(7));
    }
    assert_eq!(m.latencies.len(), 1000);
    assert_eq!(m.avg_latency(), Duration::from_nanos(7));
}

#[test]
fn shutdown_state() {
    let mut s = ShutdownCoordinator::new(Duration::from_secs(5));
    s.request_started();
    assert_eq!(s.active_requests(), 1);
    assert!(matches!(s.drain_step(Duration::from_secs(1)), DrainStep::Wait));
    assert!(matches!(s.drain_step(Duration::from_millis(5001)), DrainStep::GiveUp));
    s.request_finished();
    assert_eq!(s.active_requests(), 0);
    assert!(matches!(s.drain_step(Duration::from_secs(9)), DrainStep::Done));
    assert!(!s.is_shutting_down());
    s.shutdown();
    assert!(s.is_shutting_down());
}

#[test]
fn query_strings() {
    let q = parse_query("a=1&b=hello+world&c&&d=%41%42&a=2&e=x=y&f=%FF");
    assert_eq!(q.get("a"), Some(&"2".to_string()));
    assert_eq!(q.get("b"), Some(&"hello world".to_string()));
    assert_eq!(q.get("c"), Some(&"".to_string()));
    assert_eq!(q.get("d"), Some(&"AB".to_string()));
    assert_eq!(q.get("e"), Some(&"x=y".to_string()));
    assert_eq!(q.get("f"), Some(&"".to_string()));
    assert_eq!(q.len(), 6);
    assert_eq!(parse_query("").len(), 0);
}

#[test]
fn body_limits() {
    let mut h = StrMap::new();
    h.insert("content-length".to_string(), "2048".to_string());
    assert!(body_too_large(&h, 1024));
    assert!(!body_too_large(&h, 4096));
    assert!(!body_too_large(&h, 0));
    h.insert("content-length".to_string(), "lots".to_string());
    assert!(!body_too_large(&h, 1));
    assert_eq!(body_read_limit(0), usize::MAX);
    assert_eq!(body_read_limit(10), 10);
}

#[test]
fn response_records() {
    let record = JsonValue::Object(vec![
        ("__cello_response__".to_string(), JsonValue::Bool(true)),
        ("status".to_string(), JsonValue::Number("201".to_string())),
        ("body".to_string(), JsonValue::Str("made".to_string())),
        (
            "headers".to_string(),
            JsonValue::Object(vec![
                ("X-A".to_string(), JsonValue::Str("1".to_string())),
                ("X-B".to_string(), JsonValue::Number("2".to_string())),
            ]),
        ),
    ]);
    let r = response_from_record(&record).unwrap();
    assert_eq!(r.status, 201);
    assert_eq!(r.body, b"made".to_vec());
    assert_eq!(r.get_header("X-A").as_deref(), Some("1"));
    assert_eq!(r.get_header("X-B"), None);
    let bare = JsonValue::Object(vec![("__cello_response__".to_string(), JsonValue::Bool(true))]);
    let r = response_from_record(&bare).unwrap();
    assert_eq!(r.status, 200);
    assert!(r.body.is_empty());
    let wide = JsonValue::Object(vec![
        ("__cello_response__".to_string(), JsonValue::Bool(true)),
        ("status".to_string(), JsonValue::Number("65737".to_string())),
    ]);
    assert_eq!(response_from_record(&wide).unwrap().status, 201);
    assert!(response_from_record(&JsonValue::Str("x".to_string())).is_none());
}

#[test]
fn dispatch_steps() {
    let p = Pipeline { has_middleware: false, has_async_middleware: true, has_prometheus: false, has_guards: true };
    assert_eq!(p.first_phase(), Phase::AsyncBefore);
    assert!(matches!(after_phase(&p, Phase::AsyncBefore, StageResult::Continue), DispatchStep::Run(Phase::Guards)));
    assert!(matches!(after_phase(&p, Phase::Guards, StageResult::Continue), DispatchStep::Run(Phase::Handler)));
    assert!(matches!(after_phase(&p, Phase::AsyncAfter, StageResult::Continue), DispatchStep::Finish));
    match after_phase(&p, Phase::Guards, StageResult::Fail(403, "no".to_string())) {
        DispatchStep::Respond { response, error } => {
            assert!(error);
            assert_eq!(response.status, 403);
        }
        _ => panic!("expected a response"),
    }
    let none = Pipeline { has_middleware: false, has_async_middleware: false, has_prometheus: false, has_guards: false };
    assert_eq!(none.first_phase(), Phase::Handler);
    let nf = unrouted_response("GET", "/x", None, None);
    assert_eq!(nf.status, 404);
    assert_eq!(String::from_utf8(nf.body.clone()).unwrap(), "{\"error\":\"Not Found: GET /x\",\"status\":404}");
    assert_eq!(body_failure_response(BodyFailure::TimedOut).status, 408);
    assert_eq!(body_failure_response(BodyFailure::TooLarge).status, 413);
    assert_eq!(handler_timeout_response().status, 504);
}
