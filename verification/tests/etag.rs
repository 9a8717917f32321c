use cello::etag::{
    generate_etag, generate_strong_etag, matches_if_none_match, EtagConfig, EtagMethod, EtagMiddleware,
};
use cello::http::{MiddlewareAction, Request, Response};

#[test]
fn test_etag_generation() {
    let data = b"Hello, World!";

    let content_hash = EtagMethod::ContentHash.generate(data);
    assert!(!content_hash.is_empty());

    let crc = EtagMethod::Crc32.generate(data);
    assert_eq!(crc.len(), 8);

    let length_hash = EtagMethod::LengthHash.generate(data);
    assert!(length_hash.contains('-'));
}

#[test]
fn test_etag_formatting() {
    let config = EtagConfig::new().weak();
    assert_eq!(config.format_etag("abc123"), "W/\"abc123\"");

    let config = EtagConfig::new().strong();
    assert_eq!(config.format_etag("abc123"), "\"abc123\"");
}

#[test]
fn test_etag_matching() {
    assert!(EtagMiddleware::etags_match("\"abc123\"", "\"abc123\""));
    assert!(EtagMiddleware::etags_match("W/\"abc123\"", "\"abc123\""));
    assert!(EtagMiddleware::etags_match("\"abc123\"", "W/\"abc123\""));
    assert!(!EtagMiddleware::etags_match("\"abc123\"", "\"xyz789\""));
}

#[test]
fn test_parse_if_none_match() {
    let etags = EtagMiddleware::parse_if_none_match("\"abc\", \"xyz\"");
    assert_eq!(etags.len(), 2);
    assert!(etags.contains(&"\"abc\"".to_string()));
    assert!(etags.contains(&"\"xyz\"".to_string()));

    let etags = EtagMiddleware::parse_if_none_match("*");
    assert_eq!(etags, vec!["*"]);
}

#[test]
fn test_helper_functions() {
    let data = b"test data";
    let etag = generate_etag(data);
    assert!(etag.starts_with("W/"));

    let strong_etag = generate_strong_etag(data);
    assert!(!strong_etag.starts_with("W/"));
    assert!(strong_etag.starts_with('"'));
}

#[test]
fn known_digests() {
    // CRC-32 of "123456789" is cbf43926; SHA-256 of "" starts e3b0c442 98fc1c14.
    assert_eq!(EtagMethod::Crc32.generate(b"123456789"), "cbf43926");
    assert_eq!(EtagMethod::LengthHash.generate(b""), "0-e3b0c44298fc1c14");
    assert_eq!(EtagMethod::LengthHash.generate(&[0u8; 20]).split('-').next(), Some("14"));
}

#[test]
fn if_none_match_wildcard_and_lists() {
    assert!(matches_if_none_match("*", "\"x\""));
    assert!(matches_if_none_match(" \"a\" , W/\"x\" ", "\"x\""));
    assert!(!matches_if_none_match("\"a\", ,", "\"x\""));
}

#[test]
fn conditional_get_gives_not_modified() {
    let m = EtagMiddleware::new();
    let mut resp = Response::new(200);
    resp.body = b"hello".to_vec();
    resp.set_header("Cache-Control", "max-age=5");
    let req = Request::new("GET", "/");
    let mut first = Response::new(200);
    first.body = b"hello".to_vec();
    assert!(matches!(m.after(&req, &mut first), MiddlewareAction::Continue));
    let etag = first.get_header("ETag").unwrap();
    let mut cond = Request::new("GET", "/");
    cond.set_header("if-none-match", &etag);
    match m.after(&cond, &mut resp) {
        MiddlewareAction::Stop(r) => {
            assert_eq!(r.status, 304);
            assert_eq!(r.get_header("ETag"), Some(etag.clone()));
            assert_eq!(r.get_header("Cache-Control"), Some("max-age=5".to_string()));
        }
        MiddlewareAction::Continue => panic!("expected 304"),
    }
    let post = Request::new("POST", "/");
    let mut r3 = Response::new(200);
    assert!(matches!(m.after(&post, &mut r3), MiddlewareAction::Continue));
    assert_eq!(r3.get_header("ETag"), None);
}
