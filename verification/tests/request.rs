use cello::http::{JsonValue, Request};
use cello::strmap::StrMap;

#[test]
fn test_request_creation() {
    let request = Request::new("GET", "/users/123");
    assert_eq!(request.method, "GET");
    assert_eq!(request.path, "/users/123");
}

#[test]
fn test_query_params() {
    let mut query = StrMap::new();
    query.insert("page".to_string(), "2".to_string());
    query.insert("active".to_string(), "true".to_string());

    let mut request = Request::new("GET", "/items");
    request.query_params = query;

    assert_eq!(request.get_query_param("page", None), Some("2".to_string()));
    assert_eq!(request.get_query_bool("active", None), Some(true));
}

#[test]
fn test_context() {
    let mut request = Request::new("GET", "/test");
    request.set_context_internal("user_id", JsonValue::Number("123".to_string()));
    request.set_context_internal("role", JsonValue::Str("admin".to_string()));

    assert!(matches!(
        request.get_context_internal("user_id"),
        Some(JsonValue::Number(n)) if n == "123"
    ));
    assert_eq!(request.get_context_str("role"), Some("admin".to_string()));
}

#[test]
fn test_multipart_boundary() {
    let mut request = Request::new("POST", "/upload");
    request.content_type = Some("multipart/form-data; boundary=----WebKitFormBoundary123".to_string());

    assert_eq!(request.multipart_boundary(), Some("----WebKitFormBoundary123".to_string()));
}

#[test]
fn multipart_boundary_quotes_and_kinds() {
    let mut request = Request::new("POST", "/upload");
    request.content_type = Some("multipart/form-data; boundary=\"abc\"".to_string());
    assert_eq!(request.multipart_boundary(), Some("abc".to_string()));
    assert!(request.is_multipart());
    assert!(!request.is_json());
    request.content_type = Some("application/json".to_string());
    assert_eq!(request.multipart_boundary(), None);
    assert!(request.is_json());
    request.content_type = Some("multipart/form-data".to_string());
    assert_eq!(request.multipart_boundary(), None);
}

#[test]
fn typed_query_and_path_values() {
    let mut request = Request::new("GET", "/items/7");
    request.query_params.insert("n".to_string(), "-42".to_string());
    request.query_params.insert("bad".to_string(), "4x".to_string());
    request.query_params.insert("flag".to_string(), "YES".to_string());
    request.params.insert("id".to_string(), "7".to_string());
    assert_eq!(request.get_query_int("n", None), Ok(Some(-42)));
    assert_eq!(request.get_query_int("missing", Some(5)), Ok(Some(5)));
    assert_eq!(
        request.get_query_int("bad", None),
        Err("Query parameter 'bad' is not a valid integer".to_string())
    );
    assert_eq!(request.get_query_bool("flag", None), Some(true));
    assert_eq!(request.get_query_bool("bad", None), Some(false));
    assert_eq!(request.get_query_bool("missing", Some(true)), Some(true));
    assert_eq!(request.get_param_int("id", None), Ok(Some(7)));
    assert_eq!(request.get_param("other", Some("x")), Some("x".to_string()));
}

#[test]
fn headers_ignore_case_and_client_address() {
    let mut request = Request::new("GET", "/");
    request.headers.insert("X-Forwarded-For".to_string(), " 10.0.0.1 , 10.0.0.2".to_string());
    request.headers.insert("accept".to_string(), "text/html,application/json".to_string());
    request.headers.insert("x-requested-with".to_string(), "XMLHttpRequest".to_string());
    request.headers.insert("x-forwarded-proto".to_string(), "HTTPS".to_string());
    assert_eq!(request.get_header("x-forwarded-for", None), Some(" 10.0.0.1 , 10.0.0.2".to_string()));
    assert_eq!(request.get_header("ACCEPT", None), Some("text/html,application/json".to_string()));
    assert_eq!(request.get_header("missing", Some("d")), Some("d".to_string()));
    assert_eq!(request.client_ip(), Some("10.0.0.1".to_string()));
    assert!(request.accepts("application/json"));
    assert!(!request.accepts("text/xml"));
    assert!(request.is_xhr());
    assert!(request.is_secure());

    let mut other = Request::new("GET", "/");
    other.headers.insert("x-real-ip".to_string(), "192.168.0.9".to_string());
    other.headers.insert("host".to_string(), "example.com".to_string());
    assert_eq!(other.client_ip(), Some("192.168.0.9".to_string()));
    assert_eq!(other.host(), Some("example.com".to_string()));
    assert!(!other.is_secure());
}

#[test]
fn from_http_and_clone_without_body() {
    let mut headers = StrMap::new();
    headers.insert("content-type".to_string(), "application/x-www-form-urlencoded".to_string());
    let r = Request::from_http("POST".to_string(), "/f".to_string(), StrMap::new(), StrMap::new(), headers, b"a=1".to_vec());
    assert!(r.is_form());
    assert_eq!(r.body_bytes(), b"a=1");
    let c = r.clone_without_body();
    assert!(c.body.is_empty());
    assert_eq!(c.content_type, r.content_type);
}

#[test]
fn context_values_as_text() {
    let mut r = Request::new("GET", "/");
    r.set_context_internal("n", JsonValue::Number("1.5".to_string()));
    r.set_context_internal("b", JsonValue::Bool(false));
    r.set_context_internal("a", JsonValue::Array(vec![]));
    assert_eq!(r.get_context_string("n"), Some("1.5".to_string()));
    assert_eq!(r.get_context_string("b"), Some("false".to_string()));
    assert_eq!(r.get_context_string("a"), None);
    assert_eq!(r.get_context_str("n"), None);
    r.set_context_internal("request_id", JsonValue::Str("abc".to_string()));
    assert_eq!(r.request_id(), Some("abc".to_string()));
}
