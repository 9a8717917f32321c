use cello::http::{Request, Response};
use cello::prometheus::{MetricsStep, PrometheusConfig, PrometheusMiddleware};

#[test]
fn test_config() {
    let config = PrometheusConfig::new()
        .namespace("myapp")
        .subsystem("api")
        .endpoint("/custom_metrics")
        .exclude_path("/health");

    assert_eq!(config.namespace, "myapp");
    assert_eq!(config.subsystem, "api");
    assert_eq!(config.endpoint, "/custom_metrics");
    assert!(config.exclude_paths.contains(&"/health".to_string()));
}

#[test]
fn test_should_exclude() {
    let middleware = PrometheusMiddleware::new();
    assert!(middleware.should_exclude("/metrics"));
    assert!(middleware.should_exclude("/health"));
    assert!(!middleware.should_exclude("/api/users"));
}

#[test]
fn test_normalize_path() {
    let mut middleware = PrometheusMiddleware::new();
    let normalized = middleware.normalize_path("/api/users/123");
    assert_eq!(normalized, "/api/users/123");
}

#[test]
fn path_labels_are_bounded() {
    let mut config = PrometheusConfig::new();
    config.max_path_cardinality = 2;
    let mut m = PrometheusMiddleware::with_config(config);
    assert_eq!(m.normalize_path("/a"), "/a");
    assert_eq!(m.normalize_path("/b"), "/b");
    assert_eq!(m.normalize_path("/c"), "OTHER");
    assert_eq!(m.normalize_path("/a"), "/a");
    assert_eq!(m.path_cache.len(), 2);
}

#[test]
fn metric_names_and_labels() {
    let c = PrometheusConfig::new();
    assert_eq!(c.metric_name("requests_total"), "cello_http_requests_total");
    assert_eq!(c.label_names(true), vec!["method", "path", "status"]);
    assert_eq!(c.label_names(false), vec!["method", "path"]);
    let mut m = PrometheusMiddleware::new();
    assert_eq!(m.build_labels("GET", "/x", 404), vec!["GET".to_string(), "/x".to_string(), "404".to_string()]);
}

#[test]
fn steps_before_and_after() {
    let mut m = PrometheusMiddleware::new();
    assert!(matches!(m.before(&Request::new("GET", "/metrics")), MetricsStep::ServeMetrics));
    assert!(matches!(m.before(&Request::new("GET", "/health/live")), MetricsStep::Skip));
    let mut r = Request::new("POST", "/api");
    r.body = b"abc".to_vec();
    match m.before(&r) {
        MetricsStep::Track { in_progress_labels, request_size } => {
            assert_eq!(in_progress_labels, vec!["POST".to_string(), "/api".to_string()]);
            assert_eq!(request_size, Some(3));
        }
        _ => panic!("expected tracking"),
    }
    let resp = Response::text("hello", Some(201));
    let rec = m.after(&r, &resp).unwrap();
    assert_eq!(rec.labels, vec!["POST".to_string(), "/api".to_string(), "201".to_string()]);
    assert_eq!(rec.in_progress_labels, vec!["POST".to_string(), "/api".to_string()]);
    assert_eq!(rec.response_size, Some(5));
    assert!(m.after(&Request::new("GET", "/metrics"), &resp).is_none());
}

#[test]
fn metrics_page_responses() {
    let ok = PrometheusMiddleware::metrics_page(Ok("x 1\n".to_string()));
    assert_eq!(ok.status, 200);
    assert_eq!(ok.get_header("Content-Type").as_deref(), Some("text/plain; version=0.0.4"));
    assert_eq!(ok.body, b"x 1\n".to_vec());
    let err = PrometheusMiddleware::metrics_page(Err("boom".to_string()));
    assert_eq!(err.status, 500);
    assert_eq!(err.body, b"Error encoding metrics: boom".to_vec());
}
