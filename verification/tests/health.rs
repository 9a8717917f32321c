use cello::health::{
    HealthCheckConfig, HealthCheckMiddleware, HealthCheckResult, HealthEndpoint, HealthReport, HealthStatus,
};

#[test]
fn test_health_status() {
    assert!(HealthStatus::Up.is_healthy());
    assert!(HealthStatus::Degraded.is_healthy());
    assert!(!HealthStatus::Down.is_healthy());
    assert!(!HealthStatus::Unknown.is_healthy());
}

#[test]
fn test_health_report() {
    let report = HealthReport::new()
        .with_version("1.0.1")
        .with_check(HealthCheckResult::up("test"));

    assert_eq!(report.status, HealthStatus::Up);
    assert_eq!(report.version, Some("1.0.1".to_string()));
    assert!(report.checks.contains_key("test"));
}

#[test]
fn test_health_report_degradation() {
    let report = HealthReport::new()
        .with_check(HealthCheckResult::up("service1"))
        .with_check(HealthCheckResult::down("service2", "Connection failed"));

    assert_eq!(report.status, HealthStatus::Down);
}

#[test]
fn health_test_config_builder() {
    let config = HealthCheckConfig::new()
        .with_path("/healthz")
        .with_details(true)
        .with_version("2.0.0");

    assert_eq!(config.base_path, "/healthz");
    assert!(config.include_details);
    assert_eq!(config.version, Some("2.0.0".to_string()));
}

#[test]
fn endpoints_and_readiness() {
    let mut m = HealthCheckMiddleware::new(HealthCheckConfig::new());
    assert_eq!(m.endpoint("/health/live"), Some(HealthEndpoint::Liveness));
    assert_eq!(m.endpoint("/health/readiness"), Some(HealthEndpoint::Readiness));
    assert_eq!(m.endpoint("/health/startup"), Some(HealthEndpoint::Startup));
    assert_eq!(m.endpoint("/health/"), Some(HealthEndpoint::Full));
    assert_eq!(m.endpoint("/healthz"), None);
    assert_eq!(m.endpoint("/other"), None);
    assert_eq!(m.readiness(), (HealthStatus::Up, 200));
    m.set_ready(false);
    assert_eq!(m.readiness(), (HealthStatus::Down, 503));
    assert!(m.serves_unrouted("/health/x"));
    assert!(!m.serves_unrouted("/healthy"));
}

#[test]
fn degraded_then_down_then_status_codes() {
    let mut degraded = HealthCheckResult::up("a");
    degraded.status = HealthStatus::Degraded;
    let r = HealthReport::new().with_check(degraded);
    assert_eq!(r.status, HealthStatus::Degraded);
    assert_eq!(r.http_status(), 200);
    let r = r.with_check(HealthCheckResult::down("b", "x"));
    assert_eq!(r.http_status(), 503);
}
