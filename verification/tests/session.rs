use cello::http::{JsonValue, MiddlewareAction, Request, Response};
use cello::session::{
    destroy_session, regenerate_session_at, CookieConfig, InMemorySessionStore, SameSite, SessionData,
    SessionMiddleware,
};
use cello::time::Duration;

#[test]
fn test_cookie_config() {
    let config = CookieConfig::new("my_session")
        .path("/app")
        .secure(true)
        .http_only(true)
        .same_site(SameSite::Strict)
        .max_age(3600);

    let cookie = config.build_cookie("abc123");
    assert!(cookie.contains("my_session=abc123"));
    assert!(cookie.contains("Path=/app"));
    assert!(cookie.contains("Secure"));
    assert!(cookie.contains("HttpOnly"));
    assert!(cookie.contains("SameSite=Strict"));
    assert!(cookie.contains("Max-Age=3600"));
}

#[test]
fn cookie_exact_forms() {
    let c = CookieConfig::default().domain("example.com").secure(false);
    assert_eq!(c.build_cookie("x"), "session_id=x; Path=/; Domain=example.com; HttpOnly; SameSite=Lax");
    assert_eq!(
        c.build_delete_cookie(),
        "session_id=; Path=/; Max-Age=0; Expires=Thu, 01 Jan 1970 00:00:00 GMT; HttpOnly; SameSite=Lax"
    );
    assert_eq!(SameSite::Unrestricted.to_string(), "None");
}

#[test]
fn test_session_data() {
    let mut session = SessionData::new();
    session.set("user_id", JsonValue::Number("123".to_string()));
    session.set("name", JsonValue::Str("Test User".to_string()));

    assert!(matches!(session.get("user_id"), Some(JsonValue::Number(n)) if n == "123"));
    assert_eq!(session.get_string("name"), Some("Test User".to_string()));
    assert!(session.modified);
}

#[test]
fn test_in_memory_store() {
    let mut store = InMemorySessionStore::new();
    let mut session = SessionData::new();
    session.set("test", JsonValue::Str("value".to_string()));

    store.set("test_session", session, Duration::from_secs(60));
    assert!(store.session_exists("test_session"));

    let retrieved = store.get("test_session").unwrap();
    assert_eq!(retrieved.get_string("test"), Some("value".to_string()));

    store.delete("test_session");
    assert!(!store.session_exists("test_session"));
}

#[test]
fn test_session_expiry() {
    let mut session = SessionData::new();
    assert!(!session.is_expired(Duration::from_secs(60)));

    session.last_accessed = 0;
    assert!(session.is_expired(Duration::from_secs(60)));
}

#[test]
fn store_expiry_at_given_times() {
    let mut store = InMemorySessionStore::with_ttl(Duration::from_secs(5));
    store.set_at("a", SessionData::new_at(10), Duration::from_nanos(100), 1_000);
    store.set_at("b", SessionData::new_at(10), Duration::from_nanos(5_000), 1_000);
    assert!(store.session_exists_at("a", 1_099));
    assert!(!store.session_exists_at("a", 1_100));
    assert!(store.get_at("b", 5_999).is_some());
    assert_eq!(store.count(), 2);
    store.cleanup_at(2_000);
    assert_eq!(store.count(), 1);
    assert!(store.session_exists_at("b", 2_000));
    assert_eq!(store.generate_id().len(), 64);
}

#[test]
fn session_values_and_keys() {
    let mut s = SessionData::new_at(100);
    assert!(!s.modified);
    s.set("a", JsonValue::Bool(true));
    s.set("b", JsonValue::Null);
    assert_eq!(s.keys(), vec!["a".to_string(), "b".to_string()]);
    assert!(s.contains("a"));
    assert!(matches!(s.remove("a"), Some(JsonValue::Bool(true))));
    assert!(!s.contains("a"));
    s.clear();
    assert!(s.keys().is_empty());
    s.touch_at(150);
    assert!(!s.is_expired_at(Duration::from_secs(60), 200));
    assert!(s.is_expired_at(Duration::from_secs(60), 211));
}

#[test]
fn middleware_starts_keeps_and_continues_a_session() {
    let mut m = SessionMiddleware::new().cookie_secure(false).ttl(Duration::from_secs(60));
    assert_eq!(m.cookie_config.max_age, Some(60));
    let mut first = Request::new("GET", "/");
    assert!(matches!(m.before_at(&mut first, 10, 1000, "abc"), Ok(MiddlewareAction::Continue)));
    assert_eq!(first.get_context_str("session_id"), Some("abc".to_string()));
    assert!(matches!(first.context.get("session_is_new"), Some(JsonValue::Bool(true))));
    let mut resp = Response::new(200);
    m.after_at(&first, &mut resp, 10);
    assert_eq!(
        resp.get_header("Set-Cookie"),
        Some("session_id=abc; Path=/; HttpOnly; SameSite=Lax; Max-Age=60".to_string())
    );
    assert_eq!(m.store.count(), 1);

    // the cookie names a live session: it is continued, with a new access time
    let mut second = Request::new("GET", "/");
    second.set_header("cookie", "other=1; session_id=abc");
    assert!(matches!(m.before_at(&mut second, 20, 1005, "fresh"), Ok(MiddlewareAction::Continue)));
    assert_eq!(second.get_context_str("session_id"), Some("abc".to_string()));
    assert!(matches!(second.context.get("session_is_new"), Some(JsonValue::Bool(false))));
    match second.context.get("session") {
        Some(JsonValue::Object(fields)) => {
            assert!(fields.iter().any(|(k, v)| k == "created_at" && matches!(v, JsonValue::Number(n) if n == "1000")));
            assert!(fields.iter().any(|(k, v)| k == "last_accessed" && matches!(v, JsonValue::Number(n) if n == "1005")));
        }
        _ => panic!("no session object"),
    }
    let mut resp2 = Response::new(200);
    m.after_at(&second, &mut resp2, 20);
    assert_eq!(resp2.get_header("Set-Cookie"), None);

    // once it has expired, a new session is started
    let mut third = Request::new("GET", "/");
    third.set_header("cookie", "session_id=abc");
    let later: u128 = 10 + 61 * 1_000_000_000;
    m.before_at(&mut third, later, 2000, "fresh").unwrap();
    assert_eq!(third.get_context_str("session_id"), Some("fresh".to_string()));
}

#[test]
fn middleware_skips_paths() {
    let m = SessionMiddleware::new().skip_path("/health");
    let mut req = Request::new("GET", "/health/live");
    m.before_at(&mut req, 0, 0, "x").unwrap();
    assert_eq!(req.get_context_str("session_id"), None);
}

#[test]
fn regenerate_and_destroy_sessions() {
    let mut store = InMemorySessionStore::new();
    let m = SessionMiddleware::new();
    let mut req = Request::new("GET", "/");
    m.before_at(&mut req, 0, 7, "old").unwrap();
    store.set_at("old", SessionData::new_at(7), Duration::from_secs(60), 0);
    assert_eq!(regenerate_session_at(&mut req, &mut store, "new", 9), "new");
    assert_eq!(req.get_context_str("session_id"), Some("new".to_string()));
    assert!(matches!(req.context.get("session_is_new"), Some(JsonValue::Bool(true))));
    assert_eq!(store.count(), 0);
    destroy_session(&mut req, &mut store);
    assert_eq!(req.get_context_str("session_id"), None);
    assert!(req.context.get("session").is_none());
}
