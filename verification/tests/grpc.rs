use cello::grpc::{
    GrpcConfig, GrpcError, GrpcMethodDef, GrpcMethodType, GrpcRequest, GrpcResponse, GrpcServer, GrpcService,
    GrpcServiceDef, GrpcStatus,
};

#[test]
fn test_grpc_config_defaults() {
    let config = GrpcConfig::new();

    assert_eq!(config.address, "[::1]:50051");
    assert!(config.services.is_empty());
    assert!(!config.reflection);
    assert_eq!(config.max_message_size, 4 * 1024 * 1024);
    assert!(!config.enable_web);
    assert_eq!(config.keepalive_secs, 60);
    assert_eq!(config.concurrency_limit, 100);
}

#[test]
fn test_grpc_config_builder() {
    let config = GrpcConfig::new()
        .with_address("0.0.0.0:9090")
        .with_reflection(true)
        .with_max_message_size(8 * 1024 * 1024)
        .with_web_support(true);

    assert_eq!(config.address, "0.0.0.0:9090");
    assert!(config.reflection);
    assert_eq!(config.max_message_size, 8 * 1024 * 1024);
    assert!(config.enable_web);
}

#[test]
fn test_grpc_method_type_display() {
    assert_eq!(GrpcMethodType::Unary.to_string(), "UNARY");
    assert_eq!(
        GrpcMethodType::ClientStreaming.to_string(),
        "CLIENT_STREAMING"
    );
    assert_eq!(
        GrpcMethodType::ServerStreaming.to_string(),
        "SERVER_STREAMING"
    );
    assert_eq!(
        GrpcMethodType::BidirectionalStreaming.to_string(),
        "BIDIRECTIONAL_STREAMING"
    );
}

#[test]
fn test_grpc_method_def_constructors() {
    let unary = GrpcMethodDef::unary("SayHello", "HelloRequest", "HelloReply");
    assert_eq!(unary.name, "SayHello");
    assert_eq!(unary.method_type, GrpcMethodType::Unary);
    assert_eq!(unary.input_type, "HelloRequest");
    assert_eq!(unary.output_type, "HelloReply");

    let server_stream = GrpcMethodDef::server_streaming("ListFeatures", "Rectangle", "Feature");
    assert_eq!(server_stream.method_type, GrpcMethodType::ServerStreaming);

    let client_stream = GrpcMethodDef::client_streaming("RecordRoute", "Point", "RouteSummary");
    assert_eq!(client_stream.method_type, GrpcMethodType::ClientStreaming);

    let bidi = GrpcMethodDef::bidi_streaming("RouteChat", "RouteNote", "RouteNote");
    assert_eq!(bidi.method_type, GrpcMethodType::BidirectionalStreaming);
}

#[test]
fn test_grpc_service_def() {
    let service = GrpcServiceDef::new("helloworld.Greeter")
        .with_description("The greeting service definition")
        .add_method(GrpcMethodDef::unary(
            "SayHello",
            "HelloRequest",
            "HelloReply",
        ))
        .add_method(GrpcMethodDef::server_streaming(
            "SayHelloStream",
            "HelloRequest",
            "HelloReply",
        ));

    assert_eq!(service.name, "helloworld.Greeter");
    assert_eq!(
        service.description,
        Some("The greeting service definition".to_string())
    );
    assert_eq!(service.methods.len(), 2);

    let method = service.get_method("SayHello");
    assert!(method.is_some());
    assert_eq!(method.unwrap().input_type, "HelloRequest");

    assert!(service.get_method("NonExistent").is_none());

    let names = service.method_names();
    assert_eq!(names, vec!["SayHello", "SayHelloStream"]);
}

#[test]
fn test_grpc_error_codes() {
    assert_eq!(GrpcError::InvalidMessage.code(), 3);
    assert_eq!(GrpcError::ServiceNotFound.code(), 5);
    assert_eq!(GrpcError::MethodNotFound.code(), 12);
    assert_eq!(GrpcError::Internal.code(), 13);
    assert_eq!(GrpcError::Unavailable.code(), 14);
    assert_eq!(GrpcError::DeadlineExceeded.code(), 4);
    assert_eq!(GrpcError::Cancelled.code(), 1);
    assert_eq!(GrpcError::PermissionDenied.code(), 7);
    assert_eq!(GrpcError::Unauthenticated.code(), 16);
    assert_eq!(GrpcError::Unknown("test".to_string()).code(), 2);
}

#[test]
fn test_grpc_error_display() {
    let err = GrpcError::ServiceNotFound;
    assert_eq!(err.to_string(), "gRPC error: service not found");

    let err = GrpcError::Unknown("something went wrong".to_string());
    assert_eq!(err.to_string(), "gRPC error: unknown: something went wrong");
}

#[test]
fn test_grpc_error_to_status() {
    let err = GrpcError::PermissionDenied;
    let status = err.to_status();
    assert_eq!(status.code, 7);
    assert_eq!(status.message, "gRPC error: permission denied");
    assert!(status.details.is_none());
}

#[test]
fn test_grpc_status_ok() {
    let status = GrpcStatus::ok();
    assert_eq!(status.code, 0);
    assert_eq!(status.message, "OK");
    assert!(status.is_ok());
    assert!(!status.is_error());
}

#[test]
fn test_grpc_status_error() {
    let status = GrpcStatus::error(13, "Internal server error");
    assert_eq!(status.code, 13);
    assert_eq!(status.message, "Internal server error");
    assert!(!status.is_ok());
    assert!(status.is_error());
}

#[test]
fn test_grpc_status_with_details() {
    let details = vec![0x01, 0x02, 0x03];
    let status = GrpcStatus::error(3, "Bad request").with_details(details.clone());
    assert_eq!(status.details, Some(details));
}

#[test]
fn test_grpc_request() {
    let payload = vec![0x0a, 0x05, 0x57, 0x6f, 0x72, 0x6c, 0x64];
    let request = GrpcRequest::new("helloworld.Greeter", "SayHello", payload.clone())
        .with_metadata("authorization", "Bearer token123")
        .with_metadata("x-request-id", "abc-123");

    assert_eq!(request.service, "helloworld.Greeter");
    assert_eq!(request.method, "SayHello");
    assert_eq!(request.payload, payload);
    assert_eq!(
        request.get_metadata("authorization"),
        Some("Bearer token123")
    );
    assert_eq!(request.get_metadata("x-request-id"), Some("abc-123"));
    assert_eq!(request.get_metadata("missing"), None);
    assert_eq!(request.full_path(), "/helloworld.Greeter/SayHello");
}

#[test]
fn test_grpc_response_ok() {
    let payload = vec![0x0a, 0x0d, 0x48, 0x65, 0x6c, 0x6c, 0x6f];
    let response = GrpcResponse::ok(payload.clone()).with_metadata("x-trace-id", "trace-456");

    assert!(response.is_ok());
    assert_eq!(response.payload, payload);
    assert_eq!(
        response.metadata.get("x-trace-id"),
        Some(&"trace-456".to_string())
    );
}

#[test]
fn test_grpc_response_error() {
    let response = GrpcResponse::error(GrpcStatus::error(14, "Service unavailable"));
    assert!(!response.is_ok());
    assert_eq!(response.status.code, 14);
    assert!(response.payload.is_empty());
}

#[test]
fn test_grpc_response_from_error() {
    let response = GrpcResponse::from_error(&GrpcError::Unauthenticated);
    assert!(!response.is_ok());
    assert_eq!(response.status.code, 16);
}

#[test]
fn test_grpc_server_register_and_list() {
    let config = GrpcConfig::new().with_reflection(true);
    let mut server = GrpcServer::new(config);

    let greeter = GrpcServiceDef::new("helloworld.Greeter").add_method(GrpcMethodDef::unary(
        "SayHello",
        "HelloRequest",
        "HelloReply",
    ));

    let route_guide = GrpcServiceDef::new("routeguide.RouteGuide")
        .add_method(GrpcMethodDef::unary("GetFeature", "Point", "Feature"))
        .add_method(GrpcMethodDef::server_streaming(
            "ListFeatures",
            "Rectangle",
            "Feature",
        ));

    server.register_service(greeter);
    server.register_service(route_guide);

    assert_eq!(server.service_count(), 2);

    let services = server.list_services();
    assert!(services.contains(&"helloworld.Greeter".to_string()));
    assert!(services.contains(&"routeguide.RouteGuide".to_string()));
}

#[test]
fn test_grpc_server_get_service() {
    let mut server = GrpcServer::new(GrpcConfig::new());

    let service = GrpcServiceDef::new("test.Service")
        .with_description("A test service")
        .add_method(GrpcMethodDef::unary(
            "DoWork",
            "WorkRequest",
            "WorkResponse",
        ));

    server.register_service(service);

    let found = server.get_service("test.Service");
    assert!(found.is_some());
    let found = found.unwrap();
    assert_eq!(found.name, "test.Service");
    assert_eq!(found.methods.len(), 1);

    assert!(server.get_service("nonexistent.Service").is_none());
}

#[test]
fn test_grpc_server_resolve_method() {
    let mut server = GrpcServer::new(GrpcConfig::new());

    let service = GrpcServiceDef::new("test.Service").add_method(GrpcMethodDef::unary(
        "Ping",
        "PingRequest",
        "PingResponse",
    ));

    server.register_service(service);

    let method = server.resolve_method("test.Service", "Ping");
    assert!(method.is_ok());
    let method = method.unwrap();
    assert_eq!(method.name, "Ping");
    assert_eq!(method.method_type, GrpcMethodType::Unary);

    let err = server.resolve_method("test.Service", "NonExistent");
    assert!(err.is_err());

    let err = server.resolve_method("nonexistent.Service", "Ping");
    assert!(err.is_err());
}

#[test]
fn test_grpc_server_handle_request() {
    let mut server = GrpcServer::new(GrpcConfig::new());

    let service = GrpcServiceDef::new("test.Service").add_method(GrpcMethodDef::unary(
        "Echo",
        "EchoRequest",
        "EchoResponse",
    ));

    server.register_service(service);

    // Successful request
    let request = GrpcRequest::new("test.Service", "Echo", vec![0x01, 0x02]);
    let response = server.handle_request(&request);
    assert!(response.is_ok());

    // Service not found
    let request = GrpcRequest::new("missing.Service", "Echo", vec![]);
    let response = server.handle_request(&request);
    assert!(!response.is_ok());
    assert_eq!(response.status.code, GrpcError::ServiceNotFound.code());

    // Method not found
    let request = GrpcRequest::new("test.Service", "Missing", vec![]);
    let response = server.handle_request(&request);
    assert!(!response.is_ok());
    assert_eq!(response.status.code, GrpcError::MethodNotFound.code());
}

#[test]
fn test_grpc_server_message_size_limit() {
    let config = GrpcConfig::new().with_max_message_size(10);
    let mut server = GrpcServer::new(config);

    let service = GrpcServiceDef::new("test.Service").add_method(GrpcMethodDef::unary(
        "Echo",
        "EchoRequest",
        "EchoResponse",
    ));
    server.register_service(service);

    // Payload exceeds max message size
    let oversized_payload = vec![0u8; 20];
    let request = GrpcRequest::new("test.Service", "Echo", oversized_payload);
    let response = server.handle_request(&request);
    assert!(!response.is_ok());
    assert_eq!(response.status.code, GrpcError::InvalidMessage.code());
}

#[test]
fn test_grpc_server_stats() {
    let mut server = GrpcServer::new(GrpcConfig::new());

    let service = GrpcServiceDef::new("test.Service").add_method(GrpcMethodDef::unary(
        "Echo",
        "EchoRequest",
        "EchoResponse",
    ));
    server.register_service(service);

    // Initial stats
    let stats = server.stats();
    assert_eq!(stats.total_requests, 0);
    assert_eq!(stats.total_errors, 0);
    assert_eq!(stats.active_streams, 0);

    // After successful request
    let request = GrpcRequest::new("test.Service", "Echo", vec![]);
    server.handle_request(&request);

    let stats = server.stats();
    assert_eq!(stats.total_requests, 1);
    assert_eq!(stats.total_errors, 0);

    // After failed request
    let bad_request = GrpcRequest::new("missing.Service", "Echo", vec![]);
    server.handle_request(&bad_request);

    let stats = server.stats();
    assert_eq!(stats.total_requests, 2);
    assert_eq!(stats.total_errors, 1);
}

#[test]
fn test_grpc_server_reflection_flag() {
    let server_with = GrpcServer::new(GrpcConfig::new().with_reflection(true));
    assert!(server_with.reflection_enabled());

    let server_without = GrpcServer::new(GrpcConfig::new().with_reflection(false));
    assert!(!server_without.reflection_enabled());
}

/// Mock service implementing the GrpcService trait for testing.
struct MockGrpcService;

impl GrpcService for MockGrpcService {
    fn name(&self) -> &str {
        "mock.MockService"
    }

    fn methods(&self) -> Vec<GrpcMethodDef> {
        vec![
            GrpcMethodDef::unary("Ping", "PingRequest", "PingResponse"),
            GrpcMethodDef::server_streaming("Watch", "WatchRequest", "WatchEvent"),
        ]
    }
}

#[test]
fn test_grpc_service_trait() {
    let service = MockGrpcService;
    assert_eq!(service.name(), "mock.MockService");
    assert_eq!(service.methods().len(), 2);
    assert_eq!(service.methods()[0].name, "Ping");
    assert_eq!(
        service.methods()[1].method_type,
        GrpcMethodType::ServerStreaming
    );
}

#[test]
fn test_grpc_handle_stream_bidi() {
    let mut server = GrpcServer::new(GrpcConfig::new());
    let service = GrpcServiceDef::new("chat.Chat").add_method(GrpcMethodDef::bidi_streaming(
        "RouteChat",
        "RouteNote",
        "RouteNote",
    ));
    server.register_service(service);

    let requests = vec![
        GrpcRequest::new("chat.Chat", "RouteChat", vec![1]),
        GrpcRequest::new("chat.Chat", "RouteChat", vec![2]),
    ];
    let responses = server.handle_stream(&requests);
    assert_eq!(responses.len(), 2);
    assert!(responses.iter().all(|r| r.is_ok()));
}

#[test]
fn test_grpc_handle_stream_unknown_method() {
    let mut server = GrpcServer::new(GrpcConfig::new());
    let requests = vec![GrpcRequest::new("missing.Service", "Call", vec![])];
    let responses = server.handle_stream(&requests);
    assert_eq!(responses.len(), 1);
    assert!(!responses[0].is_ok());
    assert_eq!(responses[0].status.code, GrpcError::ServiceNotFound.code());
}

#[test]
fn test_grpc_reflection_descriptors() {
    let mut server = GrpcServer::new(GrpcConfig::new().with_reflection(true));
    let service = GrpcServiceDef::new("helloworld.Greeter").add_method(GrpcMethodDef::bidi_streaming(
        "SayHelloStream",
        "HelloRequest",
        "HelloReply",
    ));
    server.register_service(service);

    let descriptors = server.reflection_descriptors();
    assert_eq!(descriptors.len(), 1);
    let first = &descriptors[0];
    assert_eq!(first.name, "helloworld.Greeter");
    assert_eq!(first.package, "helloworld");
    assert_eq!(first.service_name, "Greeter");
    let method = &first.methods[0];
    assert_eq!(method.name, "SayHelloStream");
    assert_eq!(method.input_type, ".HelloRequest");
    assert_eq!(method.client_streaming, true);
    assert_eq!(method.server_streaming, true);
}

#[test]
fn grpc_message_size_error_text() {
    let mut server = GrpcServer::new(GrpcConfig::new().with_max_message_size(3));
    let response = server.handle_request(&GrpcRequest::new("a.B", "C", vec![1, 2, 3, 4]));
    assert_eq!(response.status.message, "Message size 4 exceeds maximum allowed size 3");
    assert_eq!(server.stats().total_errors, 1);
    assert_eq!(server.stats().active_streams, 0);
}

#[test]
fn grpc_registration_replaces_same_name() {
    let mut server = GrpcServer::new(GrpcConfig::new());
    server.register_service(GrpcServiceDef::new("a.S"));
    server.register_service(GrpcServiceDef::new("a.S").add_method(GrpcMethodDef::unary("M", "I", "O")));
    assert_eq!(server.service_count(), 1);
    assert!(server.resolve_method("a.S", "M").is_ok());
    assert_eq!(server.list_services(), vec!["a.S".to_string()]);
}

#[test]
fn stream_counts_each_request_and_error() {
    let mut server = GrpcServer::new(GrpcConfig::new());
    let service = GrpcServiceDef::new("chat.Chat").add_method(GrpcMethodDef::bidi_streaming(
        "RouteChat",
        "RouteNote",
        "RouteNote",
    ));
    server.register_service(service);
    let requests = vec![
        GrpcRequest::new("chat.Chat", "RouteChat", vec![1]),
        GrpcRequest::new("chat.Chat", "Missing", vec![2]),
        GrpcRequest::new("chat.Chat", "RouteChat", vec![3]),
    ];
    let responses = server.handle_stream(&requests);
    assert_eq!(responses.len(), 3);
    assert!(responses.iter().all(|r| r.payload.is_empty()));
    assert!(!responses[1].is_ok());
    let stats = server.stats();
    assert_eq!(stats.total_requests, 3);
    assert_eq!(stats.total_errors, 1);
    assert_eq!(stats.active_streams, 0);

    // an unknown first method answers once and counts nothing
    let unknown = vec![GrpcRequest::new("missing.Service", "Call", vec![])];
    server.handle_stream(&unknown);
    let after = server.stats();
    assert_eq!((after.total_requests, after.total_errors), (3, 1));
}
