use cello::csrf::{
    csrf_hidden_field, csrf_meta_tag, get_csrf_token, origin_authority, secure_compare, CsrfConfig, CsrfMiddleware, CsrfToken,
};
use cello::http::{JsonValue, MiddlewareAction, Request, Response};
use cello::time::Duration;

#[test]
fn test_csrf_token_generation() {
    let token = CsrfToken::generate();
    assert_eq!(token.token.len(), 64); // 32 bytes = 64 hex chars
    assert!(!token.is_expired(Duration::from_secs(60)));
}

#[test]
fn test_signed_token() {
    let secret = b"test-secret-key-for-csrf";
    let token = CsrfToken::generate_signed(secret);

    assert!(CsrfToken::verify_signed(
        &token.token,
        secret,
        Duration::from_secs(60)
    ));

    // Wrong secret should fail
    assert!(!CsrfToken::verify_signed(
        &token.token,
        b"wrong-secret",
        Duration::from_secs(60)
    ));
}

#[test]
fn test_csrf_config() {
    let config = CsrfConfig::new()
        .cookie_name("my_csrf")
        .header_name("X-My-CSRF")
        .skip_path("/api/webhook")
        .allowed_origin("https://example.com");

    assert_eq!(config.cookie_name, "my_csrf");
    assert_eq!(config.header_name, "X-My-CSRF");
    assert!(config.skip_paths.contains(&"/api/webhook".to_string()));
    assert!(config
        .allowed_origins
        .contains(&"https://example.com".to_string()));
}

#[test]
fn test_safe_methods() {
    let middleware = CsrfMiddleware::new();
    assert!(middleware.is_safe_method("GET"));
    assert!(middleware.is_safe_method("HEAD"));
    assert!(middleware.is_safe_method("OPTIONS"));
    assert!(!middleware.is_safe_method("POST"));
    assert!(!middleware.is_safe_method("PUT"));
    assert!(!middleware.is_safe_method("DELETE"));
}

#[test]
fn test_origin_authority_strips_scheme_and_path() {
    assert_eq!(origin_authority("https://example.com"), "example.com");
    assert_eq!(origin_authority("http://example.com"), "example.com");
    assert_eq!(
        origin_authority("https://example.com:8443/login?x=1"),
        "example.com:8443"
    );
    // No scheme -> value is already an authority (Host header form).
    assert_eq!(origin_authority("example.com:80"), "example.com:80");
}

#[test]
fn test_origin_authority_rejects_suffix_attack() {
    // Regression: `example.com.evil.com` must NOT be treated as `example.com`.
    let host = "example.com";
    assert_ne!(origin_authority("https://example.com.evil.com"), host);
    assert_ne!(origin_authority("https://evil.com"), host);
    assert_eq!(origin_authority("https://example.com"), host);
}

#[test]
fn signed_token_age_limit() {
    let secret = b"k";
    let token = CsrfToken::generate_signed(secret);
    let ts = token.timestamp;
    assert!(CsrfToken::verify_signed_at(&token.token, secret, Duration::from_secs(10), ts + 10));
    assert!(!CsrfToken::verify_signed_at(&token.token, secret, Duration::from_secs(10), ts + 11));
    assert!(!CsrfToken::verify_signed_at("no-dot-here", secret, Duration::from_secs(10), ts));
}

#[test]
fn double_submit_checks_cookie_against_header() {
    let m = CsrfMiddleware::new();
    let mut req = Request::new("POST", "/form");
    req.set_header("cookie", "a=1; _csrf=tok123");
    req.set_header("x-csrf-token", "tok123");
    assert!(matches!(m.before(&mut req), Ok(MiddlewareAction::Continue)));
    let mut bad = Request::new("POST", "/form");
    bad.set_header("cookie", "_csrf=tok123");
    bad.set_header("x-csrf-token", "other");
    match m.before(&mut bad) {
        Err(e) => {
            assert_eq!(e.message, "CSRF token validation failed");
            assert_eq!(e.status, 403);
        }
        _ => panic!("not refused"),
    }
    let mut get = Request::new("GET", "/form");
    assert!(matches!(m.before(&mut get), Ok(MiddlewareAction::Continue)));
    let token = get_csrf_token(&get).unwrap();
    assert_eq!(token.len(), 64);
    let mut resp = Response::new(200);
    m.after(&get, &mut resp);
    let cookie = resp.get_header("Set-Cookie").unwrap();
    assert!(cookie.starts_with(&format!("_csrf={}", token)));
    let mut post_resp = Response::new(200);
    m.after(&req, &mut post_resp);
    assert_eq!(post_resp.get_header("Set-Cookie"), None);
}

#[test]
fn origin_check_compares_authority_with_host() {
    let m = CsrfMiddleware::with_config(CsrfConfig::new().origin_check());
    let mut req = Request::new("POST", "/");
    req.set_header("host", "example.com");
    req.set_header("origin", "https://example.com");
    assert!(m.validate_origin(&req));
    let mut evil = Request::new("POST", "/");
    evil.set_header("host", "example.com");
    evil.set_header("referer", "https://evil.com/?x=example.com");
    assert!(!m.validate_origin(&evil));
}

#[test]
fn cookie_and_helpers() {
    let m = CsrfMiddleware::new();
    assert_eq!(m.build_cookie("abc"), "_csrf=abc; Path=/; Secure; SameSite=Lax");
    let mut with_token = Request::new("GET", "/");
    with_token.set_context_internal("csrf_token", JsonValue::Str("t".to_string()));
    assert_eq!(csrf_hidden_field(&with_token), "<input type=\"hidden\" name=\"_csrf\" value=\"t\">");
    assert_eq!(csrf_meta_tag(&with_token), "<meta name=\"csrf-token\" content=\"t\">");
    assert_eq!(get_csrf_token(&with_token), Some("t".to_string()));
    assert_eq!(csrf_hidden_field(&Request::new("GET", "/")), "");
    assert!(secure_compare("abc", "abc"));
    assert!(!secure_compare("abc", "abd"));
}
