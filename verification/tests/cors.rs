use cello::cors::{domain_matches, extract_domain, AllowedOrigins, CorsConfig, CorsMiddleware};
use cello::http::{MiddlewareAction, Request, Response};
use cello::strmap::StrSet;

#[test]
fn test_allowed_origins_any() {
    let origins = AllowedOrigins::Any;
    assert!(origins.is_allowed("https://example.com"));
    assert_eq!(
        origins.header_value("https://example.com"),
        Some("*".to_string())
    );
}

#[test]
fn test_allowed_origins_list() {
    let mut list = StrSet::new();
    list.insert("https://example.com".to_string());
    let origins = AllowedOrigins::List(list);

    assert!(origins.is_allowed("https://example.com"));
    assert!(!origins.is_allowed("https://other.com"));
}

#[test]
fn test_cors_config() {
    let config = CorsConfig::new()
        .allow_origin("https://example.com")
        .allow_methods(vec!["GET", "POST"])
        .allow_headers(vec!["Content-Type", "Authorization"])
        .allow_credentials()
        .max_age(3600);

    assert!(config.methods.contains("GET"));
    assert!(config.methods.contains("POST"));
    assert!(config.credentials);
    assert_eq!(config.max_age, Some(3600));
}

#[test]
fn test_domain_matches() {
    assert!(domain_matches("*.example.com", "sub.example.com"));
    assert!(domain_matches("*.example.com", "deep.sub.example.com"));
    assert!(!domain_matches("*.example.com", "example.org"));
    assert!(domain_matches("example.com", "example.com"));
}

#[test]
fn test_extract_domain() {
    assert_eq!(extract_domain("https://example.com"), Some("example.com"));
    assert_eq!(
        extract_domain("https://example.com:8080"),
        Some("example.com")
    );
    assert_eq!(extract_domain("http://localhost:3000"), Some("localhost"));
}

#[test]
fn preflight_answer_with_credentials_reflects_origin() {
    let config = CorsConfig::new().allow_credentials().allow_header("X-Token").max_age(60);
    let m = CorsMiddleware::with_config(config);
    let mut req = Request::new("OPTIONS", "/api");
    req.set_header("origin", "https://app.example");
    req.set_header("access-control-request-method", "POST");
    match m.before(&req) {
        MiddlewareAction::Stop(r) => {
            assert_eq!(r.status, 204);
            assert_eq!(r.get_header("Access-Control-Allow-Origin"), Some("https://app.example".to_string()));
            assert_eq!(r.get_header("Access-Control-Allow-Credentials"), Some("true".to_string()));
            assert_eq!(r.get_header("Access-Control-Allow-Headers"), Some("x-token".to_string()));
            assert_eq!(r.get_header("Access-Control-Max-Age"), Some("60".to_string()));
            assert_eq!(
                r.get_header("Access-Control-Allow-Methods"),
                Some("GET, POST, PUT, PATCH, DELETE, HEAD, OPTIONS".to_string())
            );
        }
        MiddlewareAction::Continue => panic!("preflight not answered"),
    }
}

#[test]
fn actual_request_gets_vary_and_origin() {
    let m = CorsMiddleware::with_config(CorsConfig::strict().allow_origin("https://a.example"));
    let mut req = Request::new("GET", "/");
    req.set_header("origin", "https://a.example");
    let mut resp = Response::new(200);
    m.after(&req, &mut resp);
    assert_eq!(resp.get_header("Access-Control-Allow-Origin"), Some("https://a.example".to_string()));
    assert_eq!(resp.get_header("Vary"), Some("Origin, Origin".to_string()));

    let mut other = Request::new("GET", "/");
    other.set_header("origin", "https://b.example");
    let mut resp2 = Response::new(200);
    m.after(&other, &mut resp2);
    assert_eq!(resp2.get_header("Access-Control-Allow-Origin"), None);
}

#[test]
fn set_origins_star_means_any() {
    let mut m = CorsMiddleware::new();
    m.set_origins(vec!["*".to_string()]);
    assert!(matches!(m.config.origins, AllowedOrigins::Any));
    m.set_origins(vec!["https://x".to_string(), "https://x".to_string()]);
    assert!(m.config.origins.is_allowed("https://x"));
    assert!(!m.config.origins.is_allowed("https://y"));
}
