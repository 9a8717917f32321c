use cello::routing::{
    convert_path, AdvancedRouter, ApiVersion, HeaderMatchType, HeaderMatcher, RegexPattern, RouteMetadata,
};
use cello::strmap::StrMap;

#[test]
fn test_api_version_parse() {
    assert_eq!(ApiVersion::parse("1.0"), Some(ApiVersion::new(1, Some(0))));
    assert_eq!(ApiVersion::parse("v2"), Some(ApiVersion::new(2, None)));
    assert_eq!(ApiVersion::parse("v1.2"), Some(ApiVersion::new(1, Some(2))));
}

#[test]
fn test_api_version_from_accept() {
    let accept = "application/vnd.api+json; version=1.0";
    assert_eq!(ApiVersion::from_accept_header(accept), Some(ApiVersion::new(1, Some(0))));

    let accept = "application/vnd.api.v2+json";
    assert_eq!(ApiVersion::from_accept_header(accept), Some(ApiVersion::new(2, None)));
}

#[test]
fn test_header_matcher() {
    let mut headers = StrMap::new();
    headers.insert("accept".to_string(), "application/json".to_string());

    let matcher = HeaderMatcher::accept("json");
    assert!(matcher.matches(&headers));

    let matcher = HeaderMatcher::accept("xml");
    assert!(!matcher.matches(&headers));
}

#[test]
fn test_path_conversion() {
    assert_eq!(convert_path("/users/{id}"), "/users/{id}");
    assert_eq!(convert_path("/users/{id:int}"), "/users/{id}");
    assert_eq!(convert_path("/files/{path:path}"), "/files/{path}");
}

#[test]
fn version_parsing_edges() {
    assert_eq!(ApiVersion::parse(" V3.x "), Some(ApiVersion::new(3, None)));
    assert_eq!(ApiVersion::parse("256"), None);
    assert_eq!(ApiVersion::parse("Vv1"), None);
    assert_eq!(ApiVersion::from_accept_header("text/html"), None);
    assert_eq!(ApiVersion::from_accept_header("application/vnd.a.v3.1+json"), Some(ApiVersion::new(3, Some(1))));
    assert_eq!(ApiVersion::new(1, Some(2)).to_string(), "1.2");
    assert_eq!(ApiVersion::new(4, None).to_string(), "4");
    assert!(ApiVersion::new(1, None).matches(&ApiVersion::new(1, Some(7))));
    assert!(!ApiVersion::new(1, Some(1)).matches(&ApiVersion::new(1, Some(7))));
    assert!(!ApiVersion::new(2, None).matches(&ApiVersion::new(1, None)));
}

#[test]
fn header_match_kinds() {
    assert!(HeaderMatchType::Exact("JSON".to_string()).matches(Some("json")));
    assert!(!HeaderMatchType::Exact("json".to_string()).matches(None));
    assert!(HeaderMatchType::Prefix("Text/".to_string()).matches(Some("text/html")));
    assert!(HeaderMatchType::Present.matches(Some("")));
    assert!(HeaderMatchType::Absent.matches(None));
    let re = RegexPattern::new(r"^v\d+$").unwrap();
    assert_eq!(re.as_str(), r"^v\d+$");
    assert!(HeaderMatchType::Regex(re).matches(Some("v12")));
    assert!(RegexPattern::new("(").is_none());
}

#[test]
fn route_metadata_checks() {
    let mut headers = StrMap::new();
    headers.insert("x-client".to_string(), "Mobile".to_string());
    let m = RouteMetadata::new(7)
        .with_header(HeaderMatcher::new("X-Client", HeaderMatchType::Exact("mobile".to_string())))
        .with_version(ApiVersion::new(2, None))
        .with_priority(5)
        .with_timeout(100);
    assert_eq!(m.handler_id, 7);
    assert!(m.validate_headers(&headers));
    assert!(m.validate_version(Some(&ApiVersion::new(2, Some(1)))));
    assert!(!m.validate_version(None));
    assert!(RouteMetadata::new(1).validate_version(None));
}

#[test]
fn advanced_router_conditions_and_catch_all() {
    let mut router = AdvancedRouter::new();
    router
        .add_route("get", "/items/{id:int}", RouteMetadata::new(1).with_version(ApiVersion::new(2, None)))
        .unwrap();
    router.add_route("GET", "/health", RouteMetadata::new(2)).unwrap();
    let headers = StrMap::new();

    let m = router.match_route("GET", "/items/5", &headers, Some(&ApiVersion::new(2, Some(1)))).unwrap();
    assert_eq!(m.handler_id, 1);
    assert_eq!(m.params.get("id"), Some(&"5".to_string()));
    assert_eq!(m.matched_version, Some(ApiVersion::new(2, None)));
    assert_eq!(router.metadata_at(m.metadata_index).handler_id, 1);
    assert!(router.match_route("GET", "/items/5", &headers, None).is_none());
    assert!(router.match_route("POST", "/health", &headers, None).is_none());

    assert!(router.match_route("GET", "/nowhere", &headers, None).is_none());
    router.set_catch_all(RouteMetadata::new(9));
    let c = router.match_route("GET", "/nowhere", &headers, None).unwrap();
    assert_eq!(c.handler_id, 9);
    assert_eq!(c.params.get("path"), Some(&"/nowhere".to_string()));
    router.compile();
    assert!(router.is_compiled);
}

#[test]
fn advanced_router_same_pattern_keeps_first_list() {
    let mut router = AdvancedRouter::new();
    let json_only = RouteMetadata::new(1).with_header(HeaderMatcher::accept("json"));
    router.add_route("GET", "/users/{id}", json_only).unwrap();
    // The second route joins the candidates, but the tree refuses the
    // pattern it already has, so lookups still see the first list.
    assert!(router.add_route("GET", "/users/{id}", RouteMetadata::new(2).with_priority(10)).is_ok());
    let mut headers = StrMap::new();
    assert!(router.match_route("GET", "/users/7", &headers, None).is_none());
    headers.insert("accept".to_string(), "application/json".to_string());
    assert_eq!(router.match_route("GET", "/users/7", &headers, None).unwrap().handler_id, 1);
    assert_eq!(router.lists.len(), 2);
    assert_eq!(router.lists[1], vec![1, 0]);
}

#[test]
fn advanced_routes_with_too_many_parameters_are_refused() {
    let mut router = AdvancedRouter::new();
    let many: String = (0..26).map(|i| format!("/{{p{i}}}")).collect();
    assert_eq!(
        router.add_route("GET", &many, RouteMetadata::new(1)),
        Err("Too many route parameters.".to_string())
    );
    let fewer: String = (0..25).map(|i| format!("/{{p{i}}}")).collect();
    assert!(router.add_route("GET", &fewer, RouteMetadata::new(2)).is_ok());
}
