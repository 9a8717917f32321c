use cello::guards::{
    AndGuard, AuthenticatedGuard, CustomGuard, Guard, GuardError, GuardKind, GuardsMiddleware, NotGuard, OrGuard,
    PermissionGuard, RoleGuard,
};
use cello::http::{JsonValue, MiddlewareAction, Request};

fn strs(items: &[&str]) -> JsonValue {
    JsonValue::Array(items.iter().map(|s| JsonValue::Str(s.to_string())).collect())
}

fn user(key: &str, value: JsonValue) -> JsonValue {
    JsonValue::Object(vec![(key.to_string(), value)])
}

fn set_user(request: &mut Request, value: JsonValue) {
    request.context.insert("user".to_string(), value);
}

#[test]
fn test_role_guard() {
    let guard = RoleGuard::new(vec!["admin", "moderator"]);

    // No user in context
    let mut request = Request::default();
    assert!(guard.check(&request).is_err());

    // User with correct role
    set_user(&mut request, user("roles", strs(&["admin"])));
    assert!(guard.check(&request).is_ok());

    // User with wrong role
    set_user(&mut request, user("roles", strs(&["user"])));
    assert!(guard.check(&request).is_err());
}

#[test]
fn test_permission_guard() {
    let guard = PermissionGuard::new(vec!["users:read", "users:write"]);

    let mut request = Request::default();
    set_user(&mut request, user("permissions", strs(&["users:read", "users:write", "posts:read"])));

    assert!(guard.check(&request).is_ok());

    // Missing one permission
    set_user(&mut request, user("permissions", strs(&["users:read"])));
    assert!(guard.check(&request).is_err());

    // With require_any
    let guard = PermissionGuard::new(vec!["users:read", "users:write"]).require_any();
    assert!(guard.check(&request).is_ok());
}

#[test]
fn test_authenticated_guard() {
    let guard = AuthenticatedGuard::new();

    // No user
    let request = Request::default();
    assert!(guard.check(&request).is_err());

    // With user
    let mut request = Request::default();
    set_user(&mut request, user("id", JsonValue::Number("123".to_string())));
    assert!(guard.check(&request).is_ok());
}

#[test]
fn test_and_guard() {
    let guard = AndGuard::new(vec![
        GuardKind::Authenticated(AuthenticatedGuard::new()),
        GuardKind::Role(RoleGuard::new(vec!["admin"])),
    ]);

    let mut request = Request::default();

    // No user - fails
    assert!(guard.check(&request).is_err());

    // User without admin role - fails
    set_user(&mut request, user("roles", strs(&["user"])));
    assert!(guard.check(&request).is_err());

    // User with admin role - passes
    set_user(&mut request, user("roles", strs(&["admin"])));
    assert!(guard.check(&request).is_ok());
}

#[test]
fn test_or_guard() {
    let guard = OrGuard::new(vec![
        GuardKind::Role(RoleGuard::new(vec!["admin"])),
        GuardKind::Role(RoleGuard::new(vec!["moderator"])),
    ]);

    let mut request = Request::default();
    set_user(&mut request, user("roles", strs(&["moderator"])));

    assert!(guard.check(&request).is_ok());
}

#[test]
fn test_custom_guard() {
    let guard = CustomGuard::new("ip_whitelist", |request: &Request| {
        let ip = request
            .headers
            .get("x-forwarded-for")
            .or_else(|| request.headers.get("x-real-ip"))
            .map(|s| s.as_str())
            .unwrap_or("unknown");

        if ip == "127.0.0.1" || ip == "::1" {
            Ok(())
        } else {
            Err(GuardError::Forbidden(format!("IP {} not whitelisted", ip)))
        }
    });

    let mut request = Request::default();
    request.headers.insert("x-real-ip".to_string(), "127.0.0.1".to_string());

    assert!(guard.check(&request).is_ok());

    request.headers.insert("x-real-ip".to_string(), "192.168.1.1".to_string());
    assert!(guard.check(&request).is_err());
}

#[test]
fn role_guard_messages() {
    let guard = RoleGuard::new(vec!["admin", "moderator", "admin"]);
    let request = Request::default();
    match guard.check(&request) {
        Err(GuardError::Unauthorized(m)) => assert_eq!(m, "User must be authenticated"),
        _ => panic!("expected unauthorized"),
    }
    let mut request = Request::default();
    set_user(&mut request, user("roles", strs(&["guest"])));
    match guard.check(&request) {
        Err(e) => assert_eq!(
            e.to_string(),
            "Forbidden: User does not have required role(s): {\"admin\", \"moderator\"}"
        ),
        _ => panic!("expected forbidden"),
    }
}

#[test]
fn role_guard_single_string_and_require_all() {
    let mut request = Request::default();
    set_user(&mut request, user("roles", JsonValue::Str("admin".to_string())));
    assert!(RoleGuard::new(vec!["admin"]).check(&request).is_ok());
    assert!(RoleGuard::new(vec!["admin", "editor"]).require_all().check(&request).is_err());
    set_user(&mut request, user("roles", strs(&["editor", "admin"])));
    assert!(RoleGuard::new(vec!["admin", "editor"]).require_all().check(&request).is_ok());
    // A single string does not count as a list of permissions.
    set_user(&mut request, user("permissions", JsonValue::Str("x".to_string())));
    match PermissionGuard::new(vec!["x"]).check(&request) {
        Err(GuardError::Unauthorized(_)) => {}
        _ => panic!("expected unauthorized"),
    }
}

#[test]
fn custom_user_and_role_keys() {
    let mut request = Request::default();
    request.context.insert("account".to_string(), user("groups", strs(&["ops"])));
    let g = RoleGuard::new(vec!["ops"]).user_key("account").role_key("groups");
    assert!(g.check(&request).is_ok());
    assert!(RoleGuard::new(vec!["ops"]).check(&request).is_err());
}

#[test]
fn permission_guard_message_lists_permissions() {
    let mut request = Request::default();
    set_user(&mut request, user("permissions", strs(&["a"])));
    match PermissionGuard::new(vec!["a", "b"]).check(&request) {
        Err(GuardError::Forbidden(m)) => {
            assert_eq!(m, "User does not have required permission(s): [\"a\", \"b\"]")
        }
        _ => panic!("expected forbidden"),
    }
}

#[test]
fn not_guard_and_empty_or() {
    let request = Request::default();
    let not = NotGuard::new(GuardKind::Authenticated(AuthenticatedGuard::new()));
    assert!(not.check(&request).is_ok());
    let mut with_user = Request::default();
    set_user(&mut with_user, JsonValue::Null);
    match not.check(&with_user) {
        Err(GuardError::Forbidden(m)) => assert_eq!(m, "Guard check inverted"),
        _ => panic!("expected forbidden"),
    }
    match OrGuard::new(vec![]).check(&request) {
        Err(GuardError::Forbidden(m)) => assert_eq!(m, "No guards passed"),
        _ => panic!("expected forbidden"),
    }
    // With all guards failing, the last refusal is the answer.
    let or = OrGuard::new(vec![
        GuardKind::Role(RoleGuard::new(vec!["a"])),
        GuardKind::Authenticated(AuthenticatedGuard::new().user_key("nobody")),
    ]);
    match or.check(&request) {
        Err(GuardError::Unauthorized(m)) => assert_eq!(m, "Authentication required"),
        _ => panic!("expected unauthorized"),
    }
}

#[test]
fn guard_error_messages() {
    assert_eq!(GuardError::Forbidden("x".to_string()).to_string(), "Forbidden: x");
    assert_eq!(GuardError::Unauthorized("y".to_string()).to_string(), "Unauthorized: y");
    assert_eq!(GuardError::Custom("z".to_string(), 418).to_string(), "Guard error (418): z");
}

#[test]
fn guards_middleware_orders_and_skips() {
    let mut m = GuardsMiddleware::new().skip_path("/health");
    assert!(!m.has_guards());
    m.add_guard(GuardKind::Role(RoleGuard::new(vec!["admin"])));
    m.add_guard(GuardKind::Authenticated(AuthenticatedGuard::new()));
    m.add_guard(GuardKind::Or(OrGuard::new(vec![])));
    assert_eq!(m.guards.len(), 3);
    assert_eq!(m.guards[0].name(), "authenticated_guard");
    assert_eq!(m.guards[1].name(), "role_guard");
    assert_eq!(m.guards[2].name(), "or_guard");

    let mut skipped = Request::new("GET", "/health/live");
    assert!(matches!(m.before(&mut skipped), Ok(MiddlewareAction::Continue)));

    let mut anon = Request::new("GET", "/admin");
    match m.before(&mut anon) {
        Err(GuardError::Unauthorized(msg)) => assert_eq!(msg, "Authentication required"),
        _ => panic!("expected unauthorized"),
    }
}

#[test]
fn guard_refusals_carry_their_status() {
    let f = GuardError::Forbidden("no".to_string()).into_middleware_error();
    assert_eq!((f.message.as_str(), f.status), ("no", 403));
    let u = GuardError::Unauthorized("who".to_string()).into_middleware_error();
    assert_eq!((u.message.as_str(), u.status), ("who", 401));
    let c = GuardError::Custom("slow down".to_string(), 429).into_middleware_error();
    assert_eq!((c.message.as_str(), c.status), ("slow down", 429));
}
