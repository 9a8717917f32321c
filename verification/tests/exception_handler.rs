use cello::exception_handler::{
    create_error_response, AuthenticationErrorHandler, AuthorizationErrorHandler, BuiltinHandler, Exception,
    ExceptionContext, ExceptionHandlerConfig, ExceptionHandlerMiddleware, ExceptionKind, InternalServerErrorHandler,
    NotFoundErrorHandler, ValidationErrorHandler,
};

fn context(kind: ExceptionKind, message: &str) -> ExceptionContext {
    ExceptionContext::new("/", Exception { kind, message: message.to_string() })
}

#[test]
fn test_validation_error_handler() {
    let handler = ValidationErrorHandler::new(ExceptionHandlerConfig::default());
    let mut context = context(ExceptionKind::Validation, "Invalid input");
    context.add_handler(handler.name());
    let response = handler.handle(&context).unwrap();

    assert_eq!(response.status, 400);
    let body = String::from_utf8(response.body.clone()).unwrap();
    assert!(body.contains("validation_error"));
    assert!(body.contains("Validation Error"));
}

#[test]
fn test_authentication_error_handler() {
    let handler = AuthenticationErrorHandler::new(ExceptionHandlerConfig::default());
    let context = context(ExceptionKind::Authentication, "Not authenticated");
    let response = handler.handle(&context).unwrap();

    assert_eq!(response.status, 401);
    assert!(response.headers.contains_key("WWW-Authenticate"));
}

#[test]
fn test_authorization_error_handler() {
    let handler = AuthorizationErrorHandler::new(ExceptionHandlerConfig::default());
    let context = context(ExceptionKind::Authorization, "Forbidden");
    let response = handler.handle(&context).unwrap();

    assert_eq!(response.status, 403);
}

#[test]
fn test_not_found_error_handler() {
    let handler = NotFoundErrorHandler::new(ExceptionHandlerConfig::default());
    let context = context(ExceptionKind::NotFound, "Not found");
    let response = handler.handle(&context).unwrap();

    assert_eq!(response.status, 404);
}

#[test]
fn test_internal_server_error_handler() {
    let handler = InternalServerErrorHandler::new(ExceptionHandlerConfig::default());
    let context = context(ExceptionKind::Other, "Internal error");
    let response = handler.handle(&context).unwrap();

    assert_eq!(response.status, 500);
}

#[test]
fn test_exception_handler_middleware() {
    let middleware = ExceptionHandlerMiddleware::new();
    let exception = Exception { kind: ExceptionKind::Other, message: "Test exception".to_string() };

    let response = middleware.handle_exception("/", exception);

    // Should be handled by internal server error handler
    assert_eq!(response.status, 500);
}

#[test]
fn test_config_options() {
    let config = ExceptionHandlerConfig {
        include_traceback: false,
        internal_error_message: "Custom error".to_string(),
        default_status_code: 503,
        media_type: "application/problem+json".to_string(),
        enable_logging: false,
        log_level: "WARN".to_string(),
    };

    let handler = InternalServerErrorHandler::new(config);
    let context = context(ExceptionKind::Other, "Test error");
    let response = handler.handle(&context).unwrap();

    assert_eq!(response.status, 503);
    assert_eq!(
        response.headers.get("Content-Type").unwrap(),
        "application/problem+json"
    );
    let body = String::from_utf8(response.body.clone()).unwrap();
    assert!(body.contains("Custom error"));
}

#[test]
fn dispatch_by_kind_and_exact_body() {
    let m = ExceptionHandlerMiddleware::new();
    let r = m.handle_exception("/items/7", Exception { kind: ExceptionKind::NotFound, message: "no item".to_string() });
    assert_eq!(r.status, 404);
    assert_eq!(
        String::from_utf8(r.body.clone()).unwrap(),
        "{\"detail\":\"no item\",\"instance\":\"/items/7\",\"status\":404,\"title\":\"Not Found\",\"type\":\"not_found_error\"}"
    );
    let v = ValidationErrorHandler::new(ExceptionHandlerConfig::default());
    assert!(v.handle(&context(ExceptionKind::Other, "x")).is_none());
    let m2 = m.add_handler(BuiltinHandler::Validation(ExceptionHandlerConfig::default()));
    assert_eq!(m2.handlers.len(), 6);
    let e = create_error_response(422, "t", "T", "d", "/i", false);
    assert_eq!(e.status, 422);
}

#[test]
fn default_handlers_carry_default_config() {
    let m = ExceptionHandlerMiddleware::new();
    let r = m.handle_exception("/x", Exception { kind: ExceptionKind::Other, message: "boom".to_string() });
    assert_eq!(r.status, 500);
    let body = String::from_utf8(r.body.clone()).unwrap();
    assert_eq!(
        body,
        "{\"detail\":\"Internal Server Error\",\"instance\":\"/x\",\"status\":500,\"title\":\"Internal Server Error\",\"type\":\"internal_server_error\"}"
    );
}
