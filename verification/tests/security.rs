use cello::security::{
    ContentSecurityPolicy, CrossOriginOpenerPolicy, HstsConfig, PermissionsPolicy, ReferrerPolicy,
    SecurityHeadersMiddleware, XFrameOptions,
};

#[test]
fn test_csp_builder() {
    let csp = ContentSecurityPolicy::new()
        .default_src(vec!["'self'"])
        .script_src(vec!["'self'", "'unsafe-inline'"])
        .img_src(vec!["'self'", "data:", "https:"]);

    let header = csp.build(None);
    assert!(header.contains("default-src 'self'"));
    assert!(header.contains("script-src 'self' 'unsafe-inline'"));
}

#[test]
fn test_csp_with_nonce() {
    let csp = ContentSecurityPolicy::new().script_src_nonce(vec!["'self'"]);

    let header = csp.build(Some("abc123"));
    assert!(header.contains("'nonce-abc123'"));
}

#[test]
fn test_hsts_config() {
    let hsts = HstsConfig::two_years().preload();
    assert_eq!(hsts.build(), "max-age=63072000; includeSubDomains; preload");
}

#[test]
fn test_permissions_policy() {
    let pp = PermissionsPolicy::new()
        .geolocation(vec!["'self'"])
        .camera(vec![]);

    let header = pp.build();
    assert!(header.contains("geolocation=('self')"));
    assert!(header.contains("camera=()"));
}

#[test]
fn test_referrer_policy() {
    assert_eq!(
        ReferrerPolicy::StrictOriginWhenCrossOrigin.build(),
        "strict-origin-when-cross-origin"
    );
}

#[test]
fn csp_header_in_insertion_order_with_report_uri() {
    let csp = ContentSecurityPolicy::new()
        .default_src(vec!["'self'"])
        .upgrade_insecure_requests()
        .report_uri("/csp");
    assert_eq!(csp.build(None), "default-src 'self'; upgrade-insecure-requests; report-uri /csp");
    assert_eq!(csp.header_name(), "Content-Security-Policy");
}

#[test]
fn x_frame_options_values() {
    assert_eq!(XFrameOptions::Deny.build(), "DENY");
    assert_eq!(XFrameOptions::AllowFrom("https://a.b".to_string()).build(), "ALLOW-FROM https://a.b");
}

#[test]
fn default_security_headers() {
    let m = SecurityHeadersMiddleware::new().coop(CrossOriginOpenerPolicy::SameOrigin);
    let headers = m.response_headers(None);
    let names: Vec<&str> = headers.iter().map(|h| h.0.as_str()).collect();
    assert!(names.contains(&"Strict-Transport-Security"));
    assert!(names.contains(&"X-Content-Type-Options"));
    assert!(headers.iter().any(|h| h.0 == "Cross-Origin-Opener-Policy" && h.1 == "same-origin"));
}

#[test]
fn nonce_is_padded_base64_of_sixteen_bytes() {
    let n = ContentSecurityPolicy::generate_nonce();
    assert_eq!(n.len(), 24);
    assert!(n.ends_with("=="));
    assert!(n[..22].chars().all(|c| c.is_ascii_alphanumeric() || c == '+' || c == '/'));
}
