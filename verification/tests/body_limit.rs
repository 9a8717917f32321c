use cello::body_limit::{format_size, parse_size, BodyLimitConfig, LimitedBodyReader};

#[test]
fn test_parse_size() {
    assert_eq!(parse_size("100"), Some(100));
    assert_eq!(parse_size("1kb"), Some(1024));
    assert_eq!(parse_size("1KB"), Some(1024));
    assert_eq!(parse_size("10mb"), Some(10 * 1024 * 1024));
    assert_eq!(parse_size("1gb"), Some(1024 * 1024 * 1024));
    assert_eq!(parse_size("1.5mb"), Some((1.5 * 1024.0 * 1024.0) as usize));
    assert_eq!(parse_size("invalid"), None);
}

#[test]
fn test_format_size() {
    assert_eq!(format_size(500), "500B");
    assert_eq!(format_size(1024), "1.0KB");
    assert_eq!(format_size(10 * 1024 * 1024), "10.0MB");
    assert_eq!(format_size(2 * 1024 * 1024 * 1024), "2.0GB");
}

#[test]
fn test_body_limit_config() {
    let config = BodyLimitConfig::new("10mb")
        .route("/upload", "100mb")
        .json("1mb")
        .multipart("50mb");

    assert_eq!(
        config.get_limit("/api/data", Some("application/json")),
        1024 * 1024
    );
    assert_eq!(config.get_limit("/upload/file", None), 100 * 1024 * 1024);
    assert_eq!(
        config.get_limit("/api/upload", Some("multipart/form-data; boundary=---")),
        50 * 1024 * 1024
    );
    assert_eq!(config.get_limit("/other", None), 10 * 1024 * 1024);
}

#[test]
fn test_limited_body_reader() {
    let mut reader = LimitedBodyReader::new(100);

    assert!(reader.write(b"hello").is_ok());
    assert_eq!(reader.len(), 5);
    assert_eq!(reader.remaining(), 95);

    // Try to exceed limit
    let large_data = vec![0u8; 200];
    assert!(reader.write(&large_data).is_err());
    assert!(reader.exceeded());
}

#[test]
fn parse_size_fractions_and_rounding() {
    assert_eq!(parse_size("0.5kb"), Some(512));
    assert_eq!(parse_size(" 2 KB "), Some(2048));
    assert_eq!(parse_size("1b"), Some(1));
    assert_eq!(parse_size("-1"), None);
    assert_eq!(parse_size(""), None);
}

#[test]
fn parse_size_exponents_and_special_values() {
    assert_eq!(parse_size("1e3kb"), Some(1000 * 1024));
    assert_eq!(parse_size("1.5E1K"), Some(15 * 1024));
    assert_eq!(parse_size("2e-1kb"), Some((0.2f64 * 1024.0) as usize));
    assert_eq!(parse_size("1e+2b"), Some(100));
    assert_eq!(parse_size("1e400kb"), Some(usize::MAX));
    assert_eq!(parse_size("1e-400kb"), Some(0));
    assert_eq!(parse_size("-1e3kb"), Some(0));
    assert_eq!(parse_size("infb"), Some(usize::MAX));
    assert_eq!(parse_size("nan mb"), Some(0));
    assert_eq!(parse_size("1ekb"), None);
    assert_eq!(parse_size("e3kb"), None);
    assert_eq!(parse_size("1e3"), None);
}

#[test]
fn format_size_rounds_to_one_decimal() {
    assert_eq!(format_size(1536), "1.5KB");
    assert_eq!(format_size(1023), "1023B");
    assert_eq!(format_size(0), "0B");
}

#[test]
fn limited_reader_keeps_data_within_limit() {
    let mut reader = LimitedBodyReader::new(4);
    assert_eq!(reader.write(b"ab").ok(), Some(2));
    assert!(reader.write(b"cde").is_err());
    assert_eq!(reader.len(), 2);
    assert_eq!(reader.into_vec(), b"ab".to_vec());
}

#[test]
fn before_step_refuses_or_records_limit() {
    let m = cello::body_limit::BodyLimitMiddleware::new();
    let mut get = cello::http::Request::new("GET", "/");
    assert!(matches!(m.before(&mut get), Ok(cello::http::MiddlewareAction::Continue)));
    assert_eq!(get.get_context_string("body_limit"), None);
    let mut post = cello::http::Request::new("POST", "/upload");
    post.body = vec![0u8; 10];
    assert!(m.before(&mut post).is_ok());
    assert_eq!(post.get_context_string("body_limit"), Some((10 * 1024 * 1024).to_string()));
    let mut big = cello::http::Request::new("POST", "/upload");
    big.set_header("content-length", "999999999999");
    let refused = m.before(&mut big).err().unwrap();
    assert_eq!(refused.status, 413);
    assert_eq!(refused.message, "Request body too large. Maximum allowed size is 10.0MB.");
    assert_eq!(big.get_context_string("body_limit"), None);
}

#[test]
fn reader_stays_within_limit() {
    let mut r = LimitedBodyReader::new(4);
    assert_eq!(r.write(b"abc").ok(), Some(3));
    assert!(r.write(b"de").is_err());
    assert!(r.exceeded());
    assert_eq!(r.len() + r.remaining(), 4);
    assert_eq!(r.len(), 3);
}

#[test]
fn size_law_examples() {
    assert_eq!(parse_size(" 10KB "), parse_size("10kb"));
    assert_eq!(parse_size("10kb"), Some(10240));
    assert_eq!(parse_size("10K"), Some(10240));
    assert_eq!(parse_size("4096"), Some(4096));
    assert_eq!(parse_size(""), None);
    assert_eq!(parse_size("  "), None);
    assert_eq!(parse_size("12xb"), None);
}
