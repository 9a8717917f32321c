use cello::http::{Request, Response};
use cello::telemetry::{generate_trace_id, OpenTelemetryConfig, OpenTelemetryMiddleware, TelemetryMetrics, TraceContext};

#[test]
fn test_trace_context() {
    let ctx = TraceContext::new();
    assert!(!ctx.trace_id.is_empty());
    assert!(!ctx.span_id.is_empty());

    let child = ctx.child();
    assert_eq!(child.trace_id, ctx.trace_id);
    assert_eq!(child.parent_span_id, Some(ctx.span_id.clone()));
}

#[test]
fn test_traceparent_format() {
    let ctx = TraceContext {
        trace_id: "0af7651916cd43dd8448eb211c80319c".to_string(),
        span_id: "b7ad6b7169203331".to_string(),
        parent_span_id: None,
        sampled: true,
    };

    let header = ctx.to_traceparent();
    assert_eq!(
        header,
        "00-0af7651916cd43dd8448eb211c80319c-b7ad6b7169203331-01"
    );

    let parsed = TraceContext::from_traceparent(&header).unwrap();
    assert_eq!(parsed.trace_id, ctx.trace_id);
    assert_eq!(parsed.span_id, ctx.span_id);
}

#[test]
fn traceparent_rejects_other_versions_and_shapes() {
    assert!(TraceContext::from_traceparent("01-a-b-01").is_none());
    assert!(TraceContext::from_traceparent("00-a-b").is_none());
    let p = TraceContext::from_traceparent("00-a-b-00").unwrap();
    assert!(!p.sampled);
    let id = generate_trace_id();
    assert_eq!(id.len(), 32);
    assert!(!id.contains('-'));
}

#[test]
fn metrics_count_by_status_and_path() {
    let mut m = TelemetryMetrics::new();
    m.record_request(200, 50, "/api/users");
    m.record_request(500, 100, "/api/users");
    m.record_request(200, 30, "/api/posts");
    assert_eq!(m.request_count, 3);
    assert_eq!(m.error_count, 1);
    assert_eq!(m.latency_sum_ms, 180);
    assert_eq!(m.status_counts, vec![(200, 2), (500, 1)]);
    assert_eq!(m.path_counts.get("/api/users"), Some(&2));
}

#[test]
fn middleware_propagates_incoming_trace() {
    let config = OpenTelemetryConfig::new("svc").exclude_path("/ping").with_attribute("env", "test");
    assert_eq!(config.service_name, "svc");
    let mut m = OpenTelemetryMiddleware::new(config);
    let mut req = Request::new("GET", "/api");
    req.set_header("traceparent", "00-abcdef0123456789abcdef0123456789-0011223344556677-01");
    m.before(&mut req);
    assert_eq!(req.get_context_str("trace_id"), Some("abcdef0123456789abcdef0123456789".to_string()));
    assert_eq!(req.get_context_str("parent_span_id"), Some("0011223344556677".to_string()));
    let span = req.get_context_str("span_id").unwrap();
    assert_eq!(span.len(), 16);
    let mut resp = Response::new(200);
    m.after(&req, &mut resp);
    assert_eq!(resp.get_header("X-Trace-ID"), Some("abcdef0123456789abcdef0123456789".to_string()));
    assert_eq!(resp.get_header("X-Span-ID"), Some(span));
    assert_eq!(m.get_metrics().request_count, 1);

    let mut fresh = Request::new("GET", "/api");
    m.before(&mut fresh);
    assert_eq!(fresh.get_context_str("trace_id").map(|t| t.len()), Some(32));
    assert_eq!(fresh.get_context_str("parent_span_id"), Some(String::new()));

    let mut skipped = Request::new("GET", "/ping");
    m.before(&mut skipped);
    assert_eq!(skipped.get_context_str("trace_id"), None);
    let mut r2 = Response::new(200);
    m.after(&skipped, &mut r2);
    assert_eq!(r2.get_header("X-Trace-ID"), None);
    assert_eq!(m.get_metrics().request_count, 1);
}
