use cello::http::{MiddlewareAction, Request, Response};
use cello::request_id::{
    generate_short_hex, generate_timestamp_counter, generate_uuid, IdFormat, RequestIdMiddleware,
};

#[test]
fn test_generate_uuid() {
    let uuid = generate_uuid();
    assert_eq!(uuid.len(), 36);
    assert!(uuid.contains('-'));

    // Verify format
    let parts: Vec<&str> = uuid.split('-').collect();
    assert_eq!(parts.len(), 5);
    assert_eq!(parts[0].len(), 8);
    assert_eq!(parts[1].len(), 4);
    assert_eq!(parts[2].len(), 4);
    assert_eq!(parts[3].len(), 4);
    assert_eq!(parts[4].len(), 12);
}

#[test]
fn test_generate_short_hex() {
    let hex8 = generate_short_hex(8);
    assert_eq!(hex8.len(), 8);
    assert!(hex8.chars().all(|c| c.is_ascii_hexdigit()));

    let hex16 = generate_short_hex(16);
    assert_eq!(hex16.len(), 16);
}

#[test]
fn test_generate_timestamp_counter() {
    let mut counter = 0u64;
    let id1 = generate_timestamp_counter(&mut counter);
    let id2 = generate_timestamp_counter(&mut counter);

    // Should be unique
    assert_ne!(id1, id2);

    // Should have format timestamp-counter
    assert!(id1.contains('-'));
}

#[test]
fn test_id_format() {
    let mut counter = 0u64;
    let uuid = IdFormat::Uuid.generate(&mut counter);
    assert_eq!(uuid.len(), 36);

    let short = IdFormat::ShortHex(12).generate(&mut counter);
    assert_eq!(short.len(), 12);

    let prefixed = IdFormat::PrefixedUuid("req".to_string()).generate(&mut counter);
    assert!(prefixed.starts_with("req_"));
}

#[test]
fn test_request_id_middleware() {
    let middleware = RequestIdMiddleware::new()
        .header("X-Correlation-ID")
        .uuid()
        .trust_incoming(true);

    assert_eq!(middleware.incoming_header, "X-Correlation-ID");
    assert_eq!(middleware.outgoing_header, "X-Correlation-ID");
    assert!(middleware.trust_incoming);
}

#[test]
fn uuid_version_and_variant() {
    let u = generate_uuid();
    assert_eq!(&u[14..15], "4");
    assert!(matches!(&u[19..20], "8" | "9" | "a" | "b"));
}

#[test]
fn counter_is_six_digits_mod_million() {
    let mut counter = 1_000_007u64;
    let id = generate_timestamp_counter(&mut counter);
    assert!(id.ends_with("-000007"));
    assert_eq!(counter, 1_000_008);
}

#[test]
fn trusted_incoming_id_is_kept_and_echoed() {
    let mut m = RequestIdMiddleware::new().trust_incoming(true);
    let mut req = Request::new("GET", "/");
    req.set_header("x-request-id", "abc");
    assert!(matches!(m.before(&mut req), MiddlewareAction::Continue));
    assert_eq!(req.get_context_str("request_id"), Some("abc".to_string()));
    let mut resp = Response::new(200);
    m.after(&req, &mut resp);
    assert_eq!(resp.get_header("X-Request-ID"), Some("abc".to_string()));
    let mut untrusted = RequestIdMiddleware::new();
    let mut fresh = Request::new("GET", "/");
    fresh.set_header("x-request-id", "abc");
    untrusted.before(&mut fresh);
    assert_eq!(fresh.request_id().map(|s| s.len()), Some(36));
    let mut resp2 = Response::new(200);
    untrusted.after(&fresh, &mut resp2);
    assert_eq!(resp2.get_header("X-Request-ID"), fresh.request_id());
    let mut none = Response::new(200);
    untrusted.after(&Request::new("GET", "/"), &mut none);
    assert_eq!(none.get_header("X-Request-ID"), None);
}
