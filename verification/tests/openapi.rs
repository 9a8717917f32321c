use cello::openapi::{
    extract_path_params, generate_operation_id, redoc_html, swagger_ui_html, OpenAPIGenerator, RouteMetadata,
};

fn route(method: &str, path: &str, tags: Vec<String>, deprecated: bool) -> RouteMetadata {
    RouteMetadata {
        method: method.to_string(),
        path: path.to_string(),
        summary: Some(format!("{} {}", method, path)),
        description: None,
        tags,
        deprecated,
    }
}

#[test]
fn test_openapi_generator() {
    let mut generator = OpenAPIGenerator::new("Test API", "1.0.1")
        .description("A test API")
        .add_jwt_auth();

    generator.register_route(RouteMetadata {
        method: "GET".to_string(),
        path: "/users/{id}".to_string(),
        summary: Some("Get user by ID".to_string()),
        description: Some("Retrieves a user by their unique identifier".to_string()),
        tags: vec!["users".to_string()],
        deprecated: false,
    });

    let spec = generator.generate();
    assert_eq!(spec.openapi, "3.0.3");
    assert_eq!(spec.info.title, "Test API");
    assert!(spec.paths.contains_key("/users/{id}"));
}

#[test]
fn test_extract_path_params() {
    let params = extract_path_params("/users/{user_id}/posts/{post_id}");
    assert_eq!(params.len(), 2);
    assert_eq!(params[0].name, "user_id");
    assert_eq!(params[1].name, "post_id");
}

#[test]
fn test_swagger_ui_html() {
    let html = swagger_ui_html("/openapi.json", "My API");
    assert!(html.contains("swagger-ui"));
    assert!(html.contains("/openapi.json"));
}

#[test]
fn path_params_skip_empty_and_unclosed_braces() {
    let params = extract_path_params("/a/{}/b/{x}/{y");
    assert_eq!(params.len(), 1);
    assert_eq!(params[0].name, "x");
    assert_eq!(params[0].location, "path");
    assert_eq!(params[0].description.as_deref(), Some("Path parameter: x"));
    assert_eq!(params[0].required, Some(true));
    assert!(extract_path_params("/plain/path").is_empty());
}

#[test]
fn operation_id_from_method_and_path() {
    assert_eq!(generate_operation_id("GET", "/users/{id}"), "get_users_id");
    assert_eq!(generate_operation_id("Post", "/"), "post_");
    assert_eq!(generate_operation_id("DELETE", "/a/b/"), "delete_a_b");
}

#[test]
fn generated_document_fills_slots() {
    let mut g = OpenAPIGenerator::new("Shop", "2.0").add_server("https://api.example.com", Some("Production"));
    g.register_route(route("GET", "/items", vec![], false));
    g.register_route(route("POST", "/items", vec!["items".to_string()], true));
    g.register_route(route("GET", "/items/{id}", vec![], false));
    g.register_route(route("BREW", "/coffee", vec![], false));
    let spec = g.generate();
    assert_eq!(spec.paths.len(), 3);
    assert!(spec.components.is_none());
    assert_eq!(spec.servers.as_ref().map(|s| s.len()), Some(2));
    let items = spec.paths.get("/items").unwrap();
    let get = items.get.as_ref().unwrap();
    assert!(get.request_body.is_none());
    assert!(get.tags.is_none());
    assert!(get.parameters.is_none());
    assert_eq!(get.operation_id.as_deref(), Some("get_items"));
    let post = items.post.as_ref().unwrap();
    assert!(post.request_body.is_some());
    assert_eq!(post.deprecated, Some(true));
    assert_eq!(post.tags.as_ref().unwrap()[0], "items");
    assert!(items.put.is_none());
    let by_id = spec.paths.get("/items/{id}").unwrap().get.as_ref().unwrap();
    assert_eq!(by_id.parameters.as_ref().unwrap()[0].name, "id");
    let coffee = spec.paths.get("/coffee").unwrap();
    assert!(coffee.get.is_none() && coffee.post.is_none() && coffee.head.is_none());
}

#[test]
fn later_route_replaces_earlier_operation() {
    let mut g = OpenAPIGenerator::new("T", "1");
    g.register_route(route("GET", "/x", vec![], false));
    g.register_route(route("GET", "/x", vec![], true));
    let spec = g.generate();
    assert_eq!(spec.paths.get("/x").unwrap().get.as_ref().unwrap().deprecated, Some(true));
}

#[test]
fn security_schemes_in_components() {
    let g = OpenAPIGenerator::new("T", "1").add_api_key_auth("X-Key", "header");
    let spec = g.generate();
    let c = spec.components.unwrap();
    let schemes = c.security_schemes.unwrap();
    let s = schemes.get("apiKey").unwrap();
    assert_eq!(s.scheme_type, "apiKey");
    assert_eq!(s.name.as_deref(), Some("X-Key"));
    assert_eq!(s.location.as_deref(), Some("header"));
}

#[test]
fn redoc_page_holds_url_and_title() {
    let html = redoc_html("/spec.json", "Docs");
    assert!(html.contains("<redoc spec-url=\"/spec.json\"></redoc>"));
    assert!(html.contains("<title>Docs - API Documentation</title>"));
    let sw = swagger_ui_html("/o.json", "Mine");
    assert!(sw.contains("<title>Mine - Swagger UI</title>"));
    assert!(sw.contains("url: \"/o.json\","));
}
