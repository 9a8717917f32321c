use cello::auth::{ApiKeyAuth, AuthOutcome, BasicAuth, JwtAuth, JwtError, TokenBlacklist};
use cello::http::{MiddlewareAction, Request, Response};
use cello::strmap::StrMap;
use std::time::{SystemTime, UNIX_EPOCH};

#[test]
fn test_api_key_from_keys() {
    let mut keys = StrMap::new();
    keys.insert("key1".to_string(), "client1".to_string());
    keys.insert("key2".to_string(), "client2".to_string());

    let auth = ApiKeyAuth::from_keys(keys);
    // Test would need actual request handling
    assert_eq!(auth.name(), "api_key_auth");
}

#[test]
fn test_token_blacklist() {
    let mut blacklist = TokenBlacklist::new();

    let future_exp = SystemTime::now()
        .duration_since(UNIX_EPOCH)
        .unwrap()
        .as_secs()
        + 3600;

    blacklist.add("token1", future_exp);
    assert!(blacklist.is_blacklisted("token1"));
    assert!(!blacklist.is_blacklisted("token2"));
}

#[test]
fn blacklist_cleanup_drops_expired() {
    let mut b = TokenBlacklist::new();
    b.add("old", 10);
    b.add("new", 100);
    b.cleanup_at(50);
    assert!(!b.is_blacklisted("old"));
    assert!(b.is_blacklisted("new"));
}

#[test]
fn basic_auth_accepts_and_challenges() {
    let auth = BasicAuth::new("alice", "s3cret").realm("Admin");
    let mut ok = Request::new("GET", "/");
    // "alice:s3cret" in Base64
    ok.set_header("authorization", "Basic YWxpY2U6czNjcmV0");
    match auth.authenticate(&ok) {
        AuthOutcome::Authenticated(u) => assert_eq!(u, "alice"),
        _ => panic!("not authenticated"),
    }
    let mut bad = Request::new("GET", "/");
    bad.set_header("authorization", "Basic YWxpY2U6d3Jvbmc=");
    match auth.authenticate(&bad) {
        AuthOutcome::Challenged(r) => {
            assert_eq!(r.status, 401);
            assert_eq!(r.get_header("WWW-Authenticate"), Some("Basic realm=\"Admin\"".to_string()));
            assert_eq!(String::from_utf8(r.body.clone()).unwrap(), "{\"error\":\"Invalid credentials\",\"status\":401}");
        }
        _ => panic!("not challenged"),
    }
    let missing = Request::new("GET", "/");
    assert!(matches!(auth.authenticate(&missing), AuthOutcome::Challenged(_)));
    let mut resp = Response::new(401);
    auth.after(&mut resp);
    assert_eq!(resp.get_header("WWW-Authenticate"), Some("Basic realm=\"Admin\"".to_string()));
}

#[test]
fn api_key_header_query_and_skip() {
    let auth = ApiKeyAuth::new("k-123").skip_path("/health");
    let mut req = Request::new("GET", "/data");
    req.set_header("x-api-key", "k-123");
    match auth.authenticate(&req) {
        AuthOutcome::Authenticated(c) => assert_eq!(c, "default"),
        _ => panic!("key refused"),
    }
    let none = Request::new("GET", "/data");
    match auth.authenticate(&none) {
        AuthOutcome::Unauthorized(m) => assert_eq!(m, "Missing API key"),
        _ => panic!("missing key accepted"),
    }
    assert!(matches!(auth.authenticate(&Request::new("GET", "/health")), AuthOutcome::Skipped));
    let mut keys = StrMap::new();
    keys.insert("abc".to_string(), "client-a".to_string());
    let table = ApiKeyAuth::from_keys(keys).query("key");
    let mut q = Request::new("GET", "/x");
    q.query_params.insert("key".to_string(), "abc".to_string());
    match table.authenticate(&q) {
        AuthOutcome::Authenticated(c) => assert_eq!(c, "client-a"),
        _ => panic!("table key refused"),
    }
}

#[test]
fn bearer_token_extraction() {
    let auth = JwtAuth::new().cookie("jwt");
    let mut req = Request::new("GET", "/");
    req.set_header("authorization", "Bearer abc.def.ghi");
    assert_eq!(auth.extract_token(&req), Some("abc.def.ghi".to_string()));
    let mut c = Request::new("GET", "/");
    c.set_header("cookie", "a=b; jwt=tok");
    assert_eq!(auth.extract_token(&c), Some("tok".to_string()));
    assert_eq!(JwtError::Expired.to_string(), "Token has expired");
}

#[test]
fn basic_and_api_key_before_fill_the_context() {
    let auth = BasicAuth::new("alice", "s3cret");
    let mut ok = Request::new("GET", "/admin");
    ok.set_header("authorization", "Basic YWxpY2U6czNjcmV0");
    assert!(matches!(auth.before(&mut ok), Ok(MiddlewareAction::Continue)));
    assert_eq!(ok.get_context_str("basic_auth_user"), Some("alice".to_string()));
    let mut missing = Request::new("GET", "/admin");
    match auth.before(&mut missing) {
        Ok(MiddlewareAction::Stop(r)) => assert_eq!(r.status, 401),
        _ => panic!("expected a challenge"),
    }
    assert_eq!(missing.get_context_str("basic_auth_user"), None);

    let keyed = ApiKeyAuth::new("k-1");
    let mut with_key = Request::new("GET", "/x");
    with_key.set_header("x-api-key", "k-1");
    assert!(matches!(keyed.before(&mut with_key), Ok(MiddlewareAction::Continue)));
    assert_eq!(with_key.get_context_str("api_key_client"), Some("default".to_string()));
    let mut wrong = Request::new("GET", "/x");
    wrong.set_header("x-api-key", "nope");
    let refused = keyed.before(&mut wrong).err().unwrap();
    assert_eq!(refused.message, "Invalid API key");
    assert_eq!(refused.status, 401);
}

#[test]
fn test_jwt_claims() {
    let claims = cello::auth::JwtClaims::new("user123", cello::time::Duration::from_secs(3600))
        .with_issuer("test-app")
        .with_claim("role", cello::http::JsonValue::Str("admin".to_string()));

    assert_eq!(claims.sub, "user123");
    assert_eq!(claims.iss, Some("test-app".to_string()));
    assert!(!claims.is_expired());
}

#[test]
fn jwt_claims_and_config_values() {
    let c = cello::auth::JwtClaims::new_at("u", cello::time::Duration::from_secs(10), 100).with_audience("api");
    assert_eq!(c.exp, 110);
    assert_eq!(c.iat, 100);
    assert_eq!(c.aud, Some("api".to_string()));
    assert!(!c.is_expired_at(110));
    assert!(c.is_expired_at(111));
    let cfg = cello::auth::JwtConfig::new(b"k").issuer("me").audience("you").leeway(5);
    assert_eq!(cfg.secret, b"k".to_vec());
    assert_eq!(cfg.issuer, Some("me".to_string()));
    assert_eq!(cfg.audience, Some("you".to_string()));
    assert_eq!(cfg.leeway, 5);
    assert_eq!(cello::auth::JwtConfig::new(b"k").leeway, 60);
}

#[test]
fn basic_auth_refuses_non_canonical_base64() {
    let auth = BasicAuth::new("alice", "s3cret");
    // canonical padding is required: the same credentials with an extra `=`
    // or with a stray character are not decoded
    let mut short = Request::new("GET", "/");
    short.set_header("authorization", "Basic YWxpY2U6czNjcmV0=");
    assert!(matches!(auth.authenticate(&short), AuthOutcome::Challenged(_)));
    let mut stray = Request::new("GET", "/");
    stray.set_header("authorization", "Basic YWxpY2U6czNjcmV0!");
    assert!(matches!(auth.authenticate(&stray), AuthOutcome::Challenged(_)));
    // "a:bc" in Base64 ends in two padding characters
    let single = BasicAuth::new("a", "bc");
    let mut padded = Request::new("GET", "/");
    padded.set_header("authorization", "Basic YTpiYw==");
    assert!(matches!(single.authenticate(&padded), AuthOutcome::Authenticated(_)));
}
