use cello::static_files::{
    mime_type_for_extension, parse_duration_str, CacheControl, FileMeta, StaticFilesConfig, StaticFilesMiddleware,
};
use cello::time::Duration;

#[test]
fn test_parse_duration_str() {
    assert_eq!(parse_duration_str("1y").as_secs(), 365 * 24 * 60 * 60);
    assert_eq!(parse_duration_str("30d").as_secs(), 30 * 24 * 60 * 60);
    assert_eq!(parse_duration_str("1h").as_secs(), 60 * 60);
    assert_eq!(parse_duration_str("30m").as_secs(), 30 * 60);
    assert_eq!(parse_duration_str("60s").as_secs(), 60);
}

#[test]
fn test_cache_control() {
    let cc = CacheControl::Public(Duration::from_secs(3600));
    assert_eq!(cc.to_header_value(), "public, max-age=3600");

    let cc = CacheControl::Immutable(Duration::from_secs(31536000));
    assert_eq!(cc.to_header_value(), "public, max-age=31536000, immutable");
}

#[test]
fn test_mime_types() {
    assert_eq!(mime_type_for_extension("html"), "text/html; charset=utf-8");
    assert_eq!(mime_type_for_extension("css"), "text/css; charset=utf-8");
    assert_eq!(
        mime_type_for_extension("js"),
        "text/javascript; charset=utf-8"
    );
    assert_eq!(mime_type_for_extension("png"), "image/png");
    assert_eq!(
        mime_type_for_extension("unknown"),
        "application/octet-stream"
    );
}

#[test]
fn test_static_files_config() {
    let config = StaticFilesConfig::new("/static", "./public")
        .cache_str("1y")
        .etag(true)
        .dir_listing(false);

    assert_eq!(config.url_path, "/static");
    assert_eq!(config.etag, true);
    assert_eq!(config.dir_listing, false);
}

#[test]
fn duration_edge_cases() {
    assert_eq!(parse_duration_str("").as_secs(), 0);
    assert_eq!(parse_duration_str(" 3600 ").as_secs(), 3600);
    assert_eq!(parse_duration_str("xd").as_secs(), 0);
    assert_eq!(mime_type_for_extension("PNG"), "image/png");
}

#[test]
fn resolve_refuses_traversal_and_hidden() {
    let m = StaticFilesMiddleware::new("/static/", "./public");
    assert_eq!(m.resolve_path("/static/css/app.css"), Some("css/app.css".to_string()));
    assert_eq!(m.resolve_path("/static"), Some(String::new()));
    assert_eq!(m.resolve_path("/staticx/a"), None);
    assert_eq!(m.resolve_path("/static/%2e%2e/secret"), None);
    assert_eq!(m.resolve_path("/static/../secret"), None);
    assert_eq!(m.resolve_path("/static/.env"), None);
    assert_eq!(m.resolve_path("/static/a%20b.txt"), Some("a b.txt".to_string()));
}

#[test]
fn resolve_decodes_escapes_byte_by_byte() {
    let m = StaticFilesMiddleware::new("/static/", "./public");
    // a `%` without two hexadecimal digits is kept as it is, and what follows
    // it is decoded on its own
    assert_eq!(m.resolve_path("/static/a%41%zz%4"), Some("aA%zz%4".to_string()));
    assert_eq!(m.resolve_path("/static/%%41"), Some("%A".to_string()));
    assert_eq!(m.resolve_path("/static/%4%41"), Some("%4A".to_string()));
    assert_eq!(m.resolve_path("/static/a+b"), Some("a+b".to_string()));
    // escapes that spell UTF-8 are read as UTF-8, others refuse the path
    assert_eq!(m.resolve_path("/static/caf%C3%A9"), Some("caf\u{e9}".to_string()));
    assert_eq!(m.resolve_path("/static/%FF"), None);
}

#[test]
fn file_etag_and_response() {
    let m = StaticFilesMiddleware::new("/s", "./p");
    let meta = FileMeta { modified: Some(255), size: 16 };
    assert_eq!(m.generate_etag(&meta), "\"ff-10\"");
    let r = m.file_response(Some("css"), &meta, b"body".to_vec(), Some("gzip"));
    assert_eq!(r.status, 200);
    assert_eq!(r.get_header("Content-Type"), Some("text/css; charset=utf-8".to_string()));
    assert_eq!(r.get_header("Content-Length"), Some("4".to_string()));
    assert_eq!(r.get_header("Cache-Control"), Some("public, max-age=86400".to_string()));
    assert_eq!(r.get_header("Last-Modified"), Some("255".to_string()));
    assert_eq!(r.get_header("Vary"), Some("Accept-Encoding".to_string()));
}

#[test]
fn durations_have_no_nanoseconds_and_listing() {
    assert_eq!(parse_duration_str("30m"), Duration::from_secs(1800));
    match CacheControl::from_str("1y") {
        CacheControl::Public(d) => assert_eq!(d, Duration::from_secs(31536000)),
        _ => panic!("not public"),
    }
    let on = StaticFilesMiddleware::with_config(StaticFilesConfig::new("/static", "./public").dir_listing(true));
    let entries = vec![("a.txt".to_string(), false), (".hidden".to_string(), false), ("sub".to_string(), true)];
    let r = on.dir_listing_response(&entries).unwrap();
    assert_eq!(r.status, 200);
    let html = String::from_utf8(r.body.clone()).unwrap();
    assert!(html.contains("<li><a href=\"a.txt\" class=\"file\">a.txt</a></li>"));
    assert!(html.contains("<li><a href=\"sub/\" class=\"dir\">sub/</a></li>"));
    assert!(!html.contains("hidden"));
    assert!(html.starts_with("<!DOCTYPE html>"));
    assert!(html.ends_with("</ul></body></html>"));
    let off = StaticFilesMiddleware::with_config(StaticFilesConfig::new("/static", "./public").dir_listing(false));
    assert!(off.dir_listing_response(&entries).is_none());
}
