use cello::router::Router;

#[test]
fn test_basic_routing() {
    let mut router = Router::new();
    router.add_route("GET", "/", 0).unwrap();
    router.add_route("GET", "/hello", 1).unwrap();
    router.add_route("POST", "/users", 2).unwrap();

    let match1 = router.match_route("GET", "/").unwrap();
    assert_eq!(match1.handler_id, 0);

    let match2 = router.match_route("GET", "/hello").unwrap();
    assert_eq!(match2.handler_id, 1);

    let match3 = router.match_route("POST", "/users").unwrap();
    assert_eq!(match3.handler_id, 2);

    assert!(router.match_route("DELETE", "/").is_none());
}

#[test]
fn test_path_parameters() {
    let mut router = Router::new();

    router.add_route("GET", "/users/{id}", 0).unwrap();
    router.add_route("GET", "/posts/{post_id}/comments/{comment_id}", 1).unwrap();

    let match1 = router.match_route("GET", "/users/123");
    assert!(match1.is_some(), "Route should match /users/123");
    let match1 = match1.unwrap();
    assert_eq!(match1.handler_id, 0);
    assert_eq!(match1.params.get("id"), Some(&"123".to_string()));

    let match2 = router.match_route("GET", "/posts/456/comments/789");
    assert!(match2.is_some(), "Route should match /posts/456/comments/789");
    let match2 = match2.unwrap();
    assert_eq!(match2.handler_id, 1);
    assert_eq!(match2.params.get("post_id"), Some(&"456".to_string()));
    assert_eq!(match2.params.get("comment_id"), Some(&"789".to_string()));
}

#[test]
fn methods_are_matched_in_uppercase() {
    let mut router = Router::new();
    router.add_route("get", "/a", 3).unwrap();
    router.add_route("PURGE", "/cache", 4).unwrap();
    assert_eq!(router.match_route("GET", "/a").unwrap().handler_id, 3);
    assert_eq!(router.match_route("Get", "/a").unwrap().handler_id, 3);
    assert_eq!(router.match_route("purge", "/cache").unwrap().handler_id, 4);
    assert!(router.match_route("GET", "/b").is_none());
}

#[test]
fn conflicting_route_is_refused() {
    let mut router = Router::new();
    router.add_route("GET", "/a", 1).unwrap();
    let err = router.add_route("GET", "/a", 2).unwrap_err();
    assert!(err.starts_with("Failed to add route: "));
    assert_eq!(router.match_route("GET", "/a").unwrap().handler_id, 1);
}

#[test]
fn routes_with_too_many_parameters_are_refused() {
    let mut router = Router::new();
    let names = "abcdefghijklmnopqrstuvwxyz";
    let many: String = names.chars().map(|c| format!("/{{{c}}}")).collect();
    assert_eq!(
        router.add_route("GET", &many, 0),
        Err("Failed to add route: Too many route parameters.".to_string())
    );
    assert!(router.match_route("GET", "/1").is_none());
    let fewer: String = names[..25].chars().map(|c| format!("/{{{c}}}")).collect();
    assert!(router.add_route("GET", &fewer, 1).is_ok());
    let path: String = (0..25).map(|i| format!("/{i}")).collect();
    assert_eq!(router.match_route("GET", &path).unwrap().handler_id, 1);
}
