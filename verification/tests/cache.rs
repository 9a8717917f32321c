use cello::cache::{
    create_cache_key, CacheConfig, CacheLookup, CacheMiddleware, CachedResponse, DefaultCacheKeyBuilder,
    InMemoryCacheStore,
};
use cello::http::{Request, Response};
use cello::strmap::StrMap;

fn entry(status: u16, cached_at: u64, ttl: u64, tags: Vec<&str>) -> CachedResponse {
    CachedResponse {
        body: b"Hello World".to_vec(),
        status,
        headers: StrMap::new(),
        cached_at,
        ttl,
        etag: None,
        last_modified: None,
        tags: tags.into_iter().map(|t| t.to_string()).collect(),
    }
}

#[test]
fn test_default_cache_key_builder() {
    let builder = DefaultCacheKeyBuilder::new();
    let mut request = Request::new("GET", "/api/users");

    let key = builder.build_key(&request, None);
    assert_eq!(key, "GET|/api/users");

    // With query params
    request.query_params.insert("limit".to_string(), "10".to_string());
    request.query_params.insert("offset".to_string(), "0".to_string());

    let key = builder.build_key(&request, None);
    assert!(key.contains("GET|/api/users"));
    assert!(key.contains("limit=10"));
    assert!(key.contains("offset=0"));
}

#[test]
fn test_cache_config() {
    let config = CacheConfig::new()
        .ttl(600)
        .exclude_path("/admin")
        .include_path("/api")
        .include_query(false);

    assert_eq!(config.default_ttl, 600);
    assert!(config.exclude_paths.contains(&"/admin".to_string()));
    assert!(config.include_paths.contains(&"/api".to_string()));
    assert!(!config.include_query);
}

#[test]
fn test_cached_response_expiry() {
    let response = entry(200, 1000, 1, vec![]);
    assert!(!response.is_expired_at(1000));
    assert!(response.remaining_ttl_at(1000) > 0);
    assert!(response.is_expired_at(1002));
    assert_eq!(response.remaining_ttl_at(1002), 0);
}

#[test]
fn test_cache_middleware_should_cache() {
    let middleware = CacheMiddleware::new();

    let mut request = Request::new("GET", "/api/data");
    assert!(middleware.should_cache_request(&request));

    // Test excluded path
    request.path = "/health".to_string();
    assert!(!middleware.should_cache_request(&request));

    // Test wrong method
    request.path = "/api/data".to_string();
    request.method = "POST".to_string();
    assert!(!middleware.should_cache_request(&request));
}

#[test]
fn test_create_cache_key() {
    let mut request = Request::new("GET", "/users");
    request.query_params.insert("sort".to_string(), "name".to_string());
    request.query_params.insert("limit".to_string(), "10".to_string());

    let key = create_cache_key(&request);
    assert!(key.contains("GET|/users"));
    assert!(key.contains("limit=10"));
    assert!(key.contains("sort=name"));
    assert_eq!(key, "GET|/users|limit=10&sort=name");
}

#[test]
fn store_evicts_expired_then_oldest() {
    let mut store = InMemoryCacheStore::new().with_max_size(2);
    store.put("a", entry(200, 10, 100, vec![]), 10);
    store.put("b", entry(200, 20, 5, vec![]), 20);
    store.put("c", entry(200, 30, 100, vec![]), 30);
    // "b" expired at 30 and goes first; two entries remain
    assert!(store.lookup("b", 30).is_none());
    assert!(store.lookup("a", 30).is_some());
    store.put("d", entry(200, 40, 100, vec![]), 40);
    // nothing expired: the oldest ("a") goes
    assert!(store.lookup("a", 40).is_none());
    assert!(store.lookup("c", 40).is_some());
    assert!(store.lookup("d", 40).is_some());
}

#[test]
fn tags_invalidate_entries() {
    let mut store = InMemoryCacheStore::new();
    store.put("x", entry(200, 0, 100, vec!["users"]), 0);
    store.put("y", entry(200, 0, 100, vec!["posts"]), 0);
    store.drop_tagged(&vec!["users".to_string()]);
    assert!(store.lookup("x", 1).is_none());
    assert!(store.lookup("y", 1).is_some());
}

#[test]
fn miss_then_hit() {
    let mut m = CacheMiddleware::new();
    let req = Request::new("GET", "/api/items");
    let key = match m.before(&req, None, 100) {
        CacheLookup::Miss(k) => k,
        _ => panic!("expected a miss"),
    };
    let mut resp = Response::new(200);
    resp.body = b"items".to_vec();
    m.after(&req, Some(&key), &mut resp, 100);
    assert_eq!(resp.get_header("X-Cache"), Some("MISS".to_string()));
    assert_eq!(resp.get_header("Cache-Control"), Some("max-age=300".to_string()));
    match m.before(&req, None, 150) {
        CacheLookup::Hit(r) => {
            assert_eq!(r.body, b"items".to_vec());
            assert_eq!(r.get_header("X-Cache"), Some("HIT".to_string()));
            assert_eq!(r.get_header("Cache-Control"), Some("max-age=250".to_string()));
        }
        _ => panic!("expected a hit"),
    }
    assert!(matches!(m.before(&req, None, 400), CacheLookup::Miss(_)));
}

#[test]
fn etag_is_stable_for_the_same_response() {
    let m = CacheMiddleware::new();
    let mut a = Response::new(200);
    a.body = b"x".to_vec();
    a.set_header("X-A", "1");
    let mut b = Response::new(200);
    b.body = b"x".to_vec();
    b.set_header("X-A", "1");
    let ea = m.generate_etag(&a);
    assert_eq!(ea, m.generate_etag(&b));
    assert!(ea.starts_with('"') && ea.ends_with('"'));
    let mut c = Response::new(201);
    c.body = b"x".to_vec();
    c.set_header("X-A", "1");
    assert_ne!(ea, m.generate_etag(&c));
}
