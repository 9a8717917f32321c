//! gRPC service registry: configuration, method and service definitions,
//! status codes, request dispatch with size limits and statistics, and the
//! descriptors that server reflection publishes.
use vstd::prelude::*;
use vstd::string::*;
use crate::strmap::StrMap;
use crate::text::{append_u64, chars_of, dec, owned, str_eq, string_of_range, views};

verus! {

// ============================================================================
// Configuration
// ============================================================================

/// gRPC server configuration.
pub struct GrpcConfig {
    /// Address to bind the gRPC server (e.g., "[::1]:50051")
    pub address: String,
    /// List of service names to register
    pub services: Vec<String>,
    /// Enable gRPC server reflection for service discovery
    pub reflection: bool,
    /// Maximum message size in bytes (default: 4MB)
    pub max_message_size: usize,
    /// Enable gRPC-Web support for browser clients
    pub enable_web: bool,
    /// Keepalive interval in seconds (default: 60)
    pub keepalive_secs: u64,
    /// Maximum number of concurrent streams per connection (default: 100)
    pub concurrency_limit: usize,
}

impl GrpcConfig {
    /// The defaults: `[::1]:50051`, no services, no reflection, 4 MiB messages,
    /// no gRPC-Web, 60 s keepalive, 100 concurrent streams.
    pub open spec fn is_default(&self) -> bool {
        &&& self.address@ == "[::1]:50051"@
        &&& self.services@.len() == 0
        &&& !self.reflection
        &&& self.max_message_size == 4194304
        &&& !self.enable_web
        &&& self.keepalive_secs == 60
        &&& self.concurrency_limit == 100
    }

    /// The default configuration.
    pub fn default() -> (res: Self)
        ensures
            res.is_default(),
    {
        GrpcConfig {
            address: String::from_str("[::1]:50051"),
            services: Vec::new(),
            reflection: false,
            max_message_size: 4 * 1024 * 1024,
            enable_web: false,
            keepalive_secs: 60,
            concurrency_limit: 100,
        }
    }

    /// Create a new gRPC configuration with default values.
    pub fn new() -> (res: Self)
        ensures
            res.is_default(),
    {
        Self::default()
    }

    /// Set the server bind address.
    pub fn with_address(self, address: &str) -> (res: Self)
        ensures
            res.address@ == address@,
            res == (GrpcConfig { address: res.address, ..self }),
    {
        let mut c = self;
        c.address = owned(address);
        c
    }

    /// Enable or disable gRPC server reflection.
    pub fn with_reflection(self, enabled: bool) -> (res: Self)
        ensures
            res == (GrpcConfig { reflection: enabled, ..self }),
    {
        let mut c = self;
        c.reflection = enabled;
        c
    }

    /// Set the maximum message size in bytes.
    pub fn with_max_message_size(self, size: usize) -> (res: Self)
        ensures
            res == (GrpcConfig { max_message_size: size, ..self }),
    {
        let mut c = self;
        c.max_message_size = size;
        c
    }

    /// Enable or disable gRPC-Web support for browser clients.
    pub fn with_web_support(self, enabled: bool) -> (res: Self)
        ensures
            res == (GrpcConfig { enable_web: enabled, ..self }),
    {
        let mut c = self;
        c.enable_web = enabled;
        c
    }
}

// ============================================================================
// Method types and definitions
// ============================================================================

/// Defines the type of a gRPC method call.
#[derive(Debug, Clone, Copy, PartialEq, Eq, Structural)]
pub enum GrpcMethodType {
    /// Single request, single response.
    Unary,
    /// Stream of requests, single response.
    ClientStreaming,
    /// Single request, stream of responses.
    ServerStreaming,
    /// Stream of requests, stream of responses.
    BidirectionalStreaming,
}

impl GrpcMethodType {
    /// The display name.
    pub open spec fn spec_name(&self) -> Seq<char> {
        match self {
            GrpcMethodType::Unary => "UNARY"@,
            GrpcMethodType::ClientStreaming => "CLIENT_STREAMING"@,
            GrpcMethodType::ServerStreaming => "SERVER_STREAMING"@,
            GrpcMethodType::BidirectionalStreaming => "BIDIRECTIONAL_STREAMING"@,
        }
    }

    /// The display name (`UNARY`, `CLIENT_STREAMING`, ...).
    pub fn to_string(&self) -> (res: String)
        ensures
            res@ == self.spec_name(),
    {
        match self {
            GrpcMethodType::Unary => String::from_str("UNARY"),
            GrpcMethodType::ClientStreaming => String::from_str("CLIENT_STREAMING"),
            GrpcMethodType::ServerStreaming => String::from_str("SERVER_STREAMING"),
            GrpcMethodType::BidirectionalStreaming => String::from_str("BIDIRECTIONAL_STREAMING"),
        }
    }

    /// Requests arrive as a stream.
    pub open spec fn client_streams(&self) -> bool {
        *self is ClientStreaming || *self is BidirectionalStreaming
    }

    /// Responses leave as a stream.
    pub open spec fn server_streams(&self) -> bool {
        *self is ServerStreaming || *self is BidirectionalStreaming
    }
}

/// Definition of a single gRPC method within a service.
#[derive(Debug, Clone)]
pub struct GrpcMethodDef {
    /// Method name (e.g., "SayHello")
    pub name: String,
    /// Type of the gRPC method (unary, streaming, etc.)
    pub method_type: GrpcMethodType,
    /// Fully qualified input message type (e.g., "helloworld.HelloRequest")
    pub input_type: String,
    /// Fully qualified output message type (e.g., "helloworld.HelloReply")
    pub output_type: String,
}

impl GrpcMethodDef {
    /// The same definition, field by field.
    pub open spec fn same(&self, o: &GrpcMethodDef) -> bool {
        &&& self.name@ == o.name@
        &&& self.method_type == o.method_type
        &&& self.input_type@ == o.input_type@
        &&& self.output_type@ == o.output_type@
    }

    /// Create a new gRPC method definition.
    pub fn new(name: &str, method_type: GrpcMethodType, input_type: &str, output_type: &str) -> (res: Self)
        ensures
            res.name@ == name@,
            res.method_type == method_type,
            res.input_type@ == input_type@,
            res.output_type@ == output_type@,
    {
        GrpcMethodDef {
            name: owned(name),
            method_type,
            input_type: owned(input_type),
            output_type: owned(output_type),
        }
    }

    /// Create a unary method definition.
    pub fn unary(name: &str, input_type: &str, output_type: &str) -> (res: Self)
        ensures
            res.name@ == name@,
            res.method_type == GrpcMethodType::Unary,
            res.input_type@ == input_type@,
            res.output_type@ == output_type@,
    {
        Self::new(name, GrpcMethodType::Unary, input_type, output_type)
    }

    /// Create a server streaming method definition.
    pub fn server_streaming(name: &str, input_type: &str, output_type: &str) -> (res: Self)
        ensures
            res.name@ == name@,
            res.method_type == GrpcMethodType::ServerStreaming,
            res.input_type@ == input_type@,
            res.output_type@ == output_type@,
    {
        Self::new(name, GrpcMethodType::ServerStreaming, input_type, output_type)
    }

    /// Create a client streaming method definition.
    pub fn client_streaming(name: &str, input_type: &str, output_type: &str) -> (res: Self)
        ensures
            res.name@ == name@,
            res.method_type == GrpcMethodType::ClientStreaming,
            res.input_type@ == input_type@,
            res.output_type@ == output_type@,
    {
        Self::new(name, GrpcMethodType::ClientStreaming, input_type, output_type)
    }

    /// Create a bidirectional streaming method definition.
    pub fn bidi_streaming(name: &str, input_type: &str, output_type: &str) -> (res: Self)
        ensures
            res.name@ == name@,
            res.method_type == GrpcMethodType::BidirectionalStreaming,
            res.input_type@ == input_type@,
            res.output_type@ == output_type@,
    {
        Self::new(name, GrpcMethodType::BidirectionalStreaming, input_type, output_type)
    }
}

/// A field-by-field copy of a method definition.
fn copy_method(m: &GrpcMethodDef) -> (res: GrpcMethodDef)
    ensures
        res.same(m),
{
    GrpcMethodDef {
        name: m.name.clone(),
        method_type: m.method_type,
        input_type: m.input_type.clone(),
        output_type: m.output_type.clone(),
    }
}

// ============================================================================
// Service definitions
// ============================================================================

/// Definition of a gRPC service containing one or more methods.
#[derive(Debug, Clone)]
pub struct GrpcServiceDef {
    /// Fully qualified service name (e.g., "helloworld.Greeter")
    pub name: String,
    /// List of methods provided by this service
    pub methods: Vec<GrpcMethodDef>,
    /// Optional human-readable description of the service
    pub description: Option<String>,
}

/// The index of the first method named `name`.
pub open spec fn first_method(ms: Seq<GrpcMethodDef>, name: Seq<char>) -> Option<int> {
    if exists|i: int| 0 <= i < ms.len() && ms[i].name@ == name {
        Some(choose|i: int| 0 <= i < ms.len() && ms[i].name@ == name
            && forall|j: int| 0 <= j < i ==> ms[j].name@ != name)
    } else {
        None
    }
}

/// The names of a list of methods, in order.
pub open spec fn method_name_seq(ms: Seq<GrpcMethodDef>) -> Seq<Seq<char>> {
    ms.map_values(|m: GrpcMethodDef| m.name@)
}

impl GrpcServiceDef {
    /// The same definition, field by field.
    pub open spec fn same(&self, o: &GrpcServiceDef) -> bool {
        &&& self.name@ == o.name@
        &&& self.methods@.len() == o.methods@.len()
        &&& forall|i: int| 0 <= i < self.methods@.len() ==> #[trigger] self.methods@[i].same(&o.methods@[i])
        &&& match (self.description, o.description) {
            (Some(a), Some(b)) => a@ == b@,
            (None, None) => true,
            _ => false,
        }
    }

    /// Create a new service definition with the given name.
    pub fn new(name: &str) -> (res: Self)
        ensures
            res.name@ == name@,
            res.methods@.len() == 0,
            res.description is None,
    {
        GrpcServiceDef { name: owned(name), methods: Vec::new(), description: None }
    }

    /// Add a method to this service definition.
    pub fn add_method(self, method: GrpcMethodDef) -> (res: Self)
        ensures
            res.methods@ == self.methods@.push(method),
            res.name == self.name,
            res.description == self.description,
    {
        let mut s = self;
        s.methods.push(method);
        s
    }

    /// Set the service description.
    pub fn with_description(self, description: &str) -> (res: Self)
        ensures
            res.description matches Some(d) && d@ == description@,
            res.name == self.name,
            res.methods == self.methods,
    {
        let mut s = self;
        s.description = Some(owned(description));
        s
    }

    /// Get the first method definition with the given name.
    pub fn get_method(&self, name: &str) -> (res: Option<&GrpcMethodDef>)
        ensures
            res matches Some(m) ==> (first_method(self.methods@, name@) matches Some(i) && *m == self.methods@[i]),
            res is None ==> first_method(self.methods@, name@) is None,
    {
        let mut i: usize = 0;
        while i < self.methods.len()
            invariant
                i <= self.methods@.len(),
                forall|j: int| 0 <= j < i ==> self.methods@[j].name@ != name@,
            decreases self.methods.len() - i,
        {
            if str_eq(self.methods[i].name.as_str(), name) {
                proof {
                    let ms = self.methods@;
                    let c = choose|k: int| 0 <= k < ms.len() && ms[k].name@ == name@
                        && forall|j: int| 0 <= j < k ==> ms[j].name@ != name@;
                    assert(0 <= i < ms.len() && ms[i as int].name@ == name@
                        && forall|j: int| 0 <= j < i ==> ms[j].name@ != name@);
                    assert(c == i as int) by {
                        if c < i as int {
                        } else if c > i as int {
                            assert(ms[i as int].name@ != name@);
                        }
                    }
                }
                return Some(&self.methods[i]);
            }
            i = i + 1;
        }
        None
    }

    /// List all method names in this service, in order.
    pub fn method_names(&self) -> (res: Vec<String>)
        ensures
            views(res@) == method_name_seq(self.methods@),
    {
        let mut out: Vec<String> = Vec::new();
        let mut i: usize = 0;
        while i < self.methods.len()
            invariant
                i <= self.methods@.len(),
                out@.len() == i,
                forall|j: int| 0 <= j < i ==> #[trigger] out@[j]@ == self.methods@[j].name@,
            decreases self.methods.len() - i,
        {
            out.push(self.methods[i].name.clone());
            i = i + 1;
        }
        assert(views(out@) =~= method_name_seq(self.methods@));
        out
    }
}

/// A field-by-field copy of a service definition.
fn copy_service(s: &GrpcServiceDef) -> (res: GrpcServiceDef)
    ensures
        res.same(s),
{
    let mut methods: Vec<GrpcMethodDef> = Vec::new();
    let mut i: usize = 0;
    while i < s.methods.len()
        invariant
            i <= s.methods@.len(),
            methods@.len() == i,
            forall|j: int| 0 <= j < i ==> #[trigger] methods@[j].same(&s.methods@[j]),
        decreases s.methods.len() - i,
    {
        methods.push(copy_method(&s.methods[i]));
        i = i + 1;
    }
    let description = match &s.description {
        Some(d) => Some(d.clone()),
        None => None,
    };
    GrpcServiceDef { name: s.name.clone(), methods, description }
}

// ============================================================================
// Errors and status
// ============================================================================

/// gRPC error types corresponding to standard gRPC status codes.
#[derive(Debug, Clone)]
pub enum GrpcError {
    /// The message payload is invalid or cannot be decoded.
    InvalidMessage,
    /// The requested service was not found on the server.
    ServiceNotFound,
    /// The requested method was not found in the service.
    MethodNotFound,
    /// An internal server error occurred.
    Internal,
    /// The service is currently unavailable.
    Unavailable,
    /// The operation exceeded its deadline.
    DeadlineExceeded,
    /// The operation was cancelled by the caller.
    Cancelled,
    /// The caller does not have permission to execute the operation.
    PermissionDenied,
    /// The caller has not been authenticated.
    Unauthenticated,
    /// An unknown error with a custom message.
    Unknown(String),
}

impl GrpcError {
    /// The standard gRPC status code.
    pub open spec fn spec_code(&self) -> i32 {
        match self {
            GrpcError::InvalidMessage => 3,
            GrpcError::ServiceNotFound => 5,
            GrpcError::MethodNotFound => 12,
            GrpcError::Internal => 13,
            GrpcError::Unavailable => 14,
            GrpcError::DeadlineExceeded => 4,
            GrpcError::Cancelled => 1,
            GrpcError::PermissionDenied => 7,
            GrpcError::Unauthenticated => 16,
            GrpcError::Unknown(_) => 2,
        }
    }

    /// The message.
    pub open spec fn spec_message(&self) -> Seq<char> {
        match self {
            GrpcError::InvalidMessage => "gRPC error: invalid message"@,
            GrpcError::ServiceNotFound => "gRPC error: service not found"@,
            GrpcError::MethodNotFound => "gRPC error: method not found"@,
            GrpcError::Internal => "gRPC error: internal server error"@,
            GrpcError::Unavailable => "gRPC error: service unavailable"@,
            GrpcError::DeadlineExceeded => "gRPC error: deadline exceeded"@,
            GrpcError::Cancelled => "gRPC error: operation cancelled"@,
            GrpcError::PermissionDenied => "gRPC error: permission denied"@,
            GrpcError::Unauthenticated => "gRPC error: unauthenticated"@,
            GrpcError::Unknown(msg) => "gRPC error: unknown: "@ + msg@,
        }
    }

    /// Convert a gRPC error to its corresponding status code.
    pub fn code(&self) -> (res: i32)
        ensures
            res == self.spec_code(),
    {
        match self {
            GrpcError::InvalidMessage => 3,
            GrpcError::ServiceNotFound => 5,
            GrpcError::MethodNotFound => 12,
            GrpcError::Internal => 13,
            GrpcError::Unavailable => 14,
            GrpcError::DeadlineExceeded => 4,
            GrpcError::Cancelled => 1,
            GrpcError::PermissionDenied => 7,
            GrpcError::Unauthenticated => 16,
            GrpcError::Unknown(_) => 2,
        }
    }

    /// The error message.
    pub fn to_string(&self) -> (res: String)
        ensures
            res@ == self.spec_message(),
    {
        match self {
            GrpcError::InvalidMessage => String::from_str("gRPC error: invalid message"),
            GrpcError::ServiceNotFound => String::from_str("gRPC error: service not found"),
            GrpcError::MethodNotFound => String::from_str("gRPC error: method not found"),
            GrpcError::Internal => String::from_str("gRPC error: internal server error"),
            GrpcError::Unavailable => String::from_str("gRPC error: service unavailable"),
            GrpcError::DeadlineExceeded => String::from_str("gRPC error: deadline exceeded"),
            GrpcError::Cancelled => String::from_str("gRPC error: operation cancelled"),
            GrpcError::PermissionDenied => String::from_str("gRPC error: permission denied"),
            GrpcError::Unauthenticated => String::from_str("gRPC error: unauthenticated"),
            GrpcError::Unknown(msg) => {
                let mut s = String::from_str("gRPC error: unknown: ");
                s.append(msg.as_str());
                s
            },
        }
    }

    /// Convert a gRPC error into a status with its code and message.
    pub fn to_status(&self) -> (res: GrpcStatus)
        ensures
            res.code == self.spec_code(),
            res.message@ == self.spec_message(),
            res.details is None,
    {
        GrpcStatus { code: self.code(), message: self.to_string(), details: None }
    }
}

/// A gRPC status: a code (0 = OK), a message and optional binary details.
#[derive(Debug, Clone)]
pub struct GrpcStatus {
    /// gRPC status code (0 = OK, non-zero = error)
    pub code: i32,
    /// Human-readable status message
    pub message: String,
    /// Optional binary-encoded status details
    pub details: Option<Vec<u8>>,
}

impl GrpcStatus {
    /// Create a successful OK status.
    pub fn ok() -> (res: Self)
        ensures
            res.code == 0,
            res.message@ == "OK"@,
            res.details is None,
    {
        GrpcStatus { code: 0, message: String::from_str("OK"), details: None }
    }

    /// Create an error status with the given code and message.
    pub fn error(code: i32, message: &str) -> (res: Self)
        ensures
            res.code == code,
            res.message@ == message@,
            res.details is None,
    {
        GrpcStatus { code, message: owned(message), details: None }
    }

    /// Attach binary details to this status.
    pub fn with_details(self, details: Vec<u8>) -> (res: Self)
        ensures
            res.code == self.code,
            res.message == self.message,
            res.details == Some(details),
    {
        let mut s = self;
        s.details = Some(details);
        s
    }

    /// Whether the code indicates success (code == 0).
    pub fn is_ok(&self) -> (res: bool)
        ensures
            res == (self.code == 0),
    {
        self.code == 0
    }

    /// Whether the code indicates an error (code != 0).
    pub fn is_error(&self) -> (res: bool)
        ensures
            res == (self.code != 0),
    {
        self.code != 0
    }
}

// ============================================================================
// Requests and responses
// ============================================================================

/// An incoming gRPC request.
pub struct GrpcRequest {
    /// Fully qualified service name
    pub service: String,
    /// Method name to invoke
    pub method: String,
    /// Serialized protobuf payload bytes
    pub payload: Vec<u8>,
    /// Request metadata (headers) as key-value pairs
    pub metadata: StrMap<String>,
}

impl GrpcRequest {
    /// Create a new gRPC request without metadata.
    pub fn new(service: &str, method: &str, payload: Vec<u8>) -> (res: Self)
        ensures
            res.metadata.wf(),
            res.service@ == service@,
            res.method@ == method@,
            res.payload == payload,
            res.metadata.seq().len() == 0,
            res.metadata.to_map() == Map::<Seq<char>, String>::empty(),
    {
        GrpcRequest { service: owned(service), method: owned(method), payload, metadata: StrMap::new() }
    }

    /// Add a metadata entry to the request.
    pub fn with_metadata(self, key: &str, value: &str) -> (res: Self)
        requires
            self.metadata.wf(),
        ensures
            res.metadata.wf(),
            res.metadata.to_map().dom() == self.metadata.to_map().dom().insert(key@),
            res.metadata.to_map()[key@]@ == value@,
            forall|k: Seq<char>| k != key@ ==> #[trigger] res.metadata.to_map()[k] == self.metadata.to_map()[k],
            res.service == self.service,
            res.method == self.method,
            res.payload == self.payload,
    {
        let mut r = self;
        r.metadata.insert(owned(key), owned(value));
        r
    }

    /// Get a metadata value by key.
    pub fn get_metadata(&self, key: &str) -> (res: Option<&str>)
        requires
            self.metadata.wf(),
        ensures
            res matches Some(v) ==> self.metadata.to_map().dom().contains(key@) && v@ == self.metadata.to_map()[key@]@,
            res is None ==> !self.metadata.to_map().dom().contains(key@),
    {
        match self.metadata.get(key) {
            Some(v) => Some(v.as_str()),
            None => None,
        }
    }

    /// The fully qualified method path: `/service/method`.
    pub fn full_path(&self) -> (res: String)
        ensures
            res@ == "/"@ + self.service@ + "/"@ + self.method@,
    {
        let mut s = String::from_str("/");
        s.append(self.service.as_str());
        s.append("/");
        s.append(self.method.as_str());
        s
    }
}

/// An outgoing gRPC response.
pub struct GrpcResponse {
    /// gRPC status indicating success or failure
    pub status: GrpcStatus,
    /// Serialized protobuf response payload bytes
    pub payload: Vec<u8>,
    /// Response metadata (trailers) as key-value pairs
    pub metadata: StrMap<String>,
}

impl GrpcResponse {
    /// A successful response with the given payload.
    pub fn ok(payload: Vec<u8>) -> (res: Self)
        ensures
            res.metadata.wf(),
            res.status.code == 0,
            res.status.message@ == "OK"@,
            res.status.details is None,
            res.payload == payload,
            res.metadata.seq().len() == 0,
    {
        GrpcResponse { status: GrpcStatus::ok(), payload, metadata: StrMap::new() }
    }

    /// An error response with the given status and no payload.
    pub fn error(status: GrpcStatus) -> (res: Self)
        ensures
            res.metadata.wf(),
            res.status == status,
            res.payload@.len() == 0,
            res.metadata.seq().len() == 0,
    {
        GrpcResponse { status, payload: Vec::new(), metadata: StrMap::new() }
    }

    /// An error response carrying the error's code and message.
    pub fn from_error(error: &GrpcError) -> (res: Self)
        ensures
            res.metadata.wf(),
            res.status.code == error.spec_code(),
            res.status.message@ == error.spec_message(),
            res.status.details is None,
            res.payload@.len() == 0,
            res.metadata.seq().len() == 0,
    {
        Self::error(error.to_status())
    }

    /// Add a metadata entry to the response.
    pub fn with_metadata(self, key: &str, value: &str) -> (res: Self)
        requires
            self.metadata.wf(),
        ensures
            res.metadata.wf(),
            res.metadata.to_map().dom() == self.metadata.to_map().dom().insert(key@),
            res.metadata.to_map()[key@]@ == value@,
            forall|k: Seq<char>| k != key@ ==> #[trigger] res.metadata.to_map()[k] == self.metadata.to_map()[k],
            res.status == self.status,
            res.payload == self.payload,
    {
        let mut r = self;
        r.metadata.insert(owned(key), owned(value));
        r
    }

    /// Whether the status indicates success.
    pub fn is_ok(&self) -> (res: bool)
        ensures
            res == (self.status.code == 0),
    {
        self.status.is_ok()
    }
}

// ============================================================================
// Services implemented by users
// ============================================================================

/// A gRPC service that can be registered with a server.
pub trait GrpcService {
    /// The fully qualified name of this service.
    fn name(&self) -> &str;

    /// The method definitions provided by this service.
    fn methods(&self) -> Vec<GrpcMethodDef>;
}

// ============================================================================
// Statistics
// ============================================================================

/// Runtime statistics for the gRPC server.
#[derive(Debug, Clone, Copy, PartialEq, Eq, Structural)]
pub struct GrpcStats {
    /// Total number of requests processed
    pub total_requests: u64,
    /// Number of currently active streams
    pub active_streams: usize,
    /// Total number of errors encountered
    pub total_errors: u64,
}

impl GrpcStats {
    /// Create a new empty stats instance.
    pub fn new() -> (res: Self)
        ensures
            res == (GrpcStats { total_requests: 0, active_streams: 0, total_errors: 0 }),
    {
        GrpcStats { total_requests: 0, active_streams: 0, total_errors: 0 }
    }
}

// ============================================================================
// Server
// ============================================================================

/// What a server's registry answers for a service and method name.
pub enum Resolution {
    Found(GrpcMethodDef),
    NoService,
    NoMethod,
}

/// A descriptor of one method, as server reflection publishes it.
pub struct MethodDescriptor {
    pub name: String,
    /// The input type with a leading `.`
    pub input_type: String,
    /// The output type with a leading `.`
    pub output_type: String,
    pub client_streaming: bool,
    pub server_streaming: bool,
}

/// A descriptor of one registered service, as server reflection publishes it.
pub struct ServiceDescriptor {
    /// The fully qualified service name.
    pub name: String,
    /// The package: the name up to its last `.` (empty when there is none).
    pub package: String,
    /// The service's own name: the part after the last `.`.
    pub service_name: String,
    pub methods: Vec<MethodDescriptor>,
}

/// Index of the last `.` in `s`.
pub open spec fn last_dot(s: Seq<char>) -> Option<int>
    decreases s.len(),
{
    if s.len() == 0 {
        None
    } else if s.last() == '.' {
        Some(s.len() - 1)
    } else {
        last_dot(s.drop_last())
    }
}

/// The package part of a fully qualified name.
pub open spec fn package_of(s: Seq<char>) -> Seq<char> {
    match last_dot(s) {
        Some(i) => s.subrange(0, i),
        None => Seq::empty(),
    }
}

/// The last segment of a fully qualified name.
pub open spec fn short_name_of(s: Seq<char>) -> Seq<char> {
    match last_dot(s) {
        Some(i) => s.subrange(i + 1, s.len() as int),
        None => s,
    }
}

/// The descriptor of method `m`.
pub open spec fn describes_method(d: MethodDescriptor, m: GrpcMethodDef) -> bool {
    &&& d.name@ == m.name@
    &&& d.input_type@ == "."@ + m.input_type@
    &&& d.output_type@ == "."@ + m.output_type@
    &&& d.client_streaming == m.method_type.client_streams()
    &&& d.server_streaming == m.method_type.server_streams()
}

/// The descriptor of service `s`.
pub open spec fn describes_service(d: ServiceDescriptor, s: GrpcServiceDef) -> bool {
    &&& d.name@ == s.name@
    &&& d.package@ == package_of(s.name@)
    &&& d.service_name@ == short_name_of(s.name@)
    &&& d.methods@.len() == s.methods@.len()
    &&& forall|i: int| 0 <= i < s.methods@.len() ==> #[trigger] describes_method(d.methods@[i], s.methods@[i])
}

/// Finds the last `.` in `v`.
fn find_last_dot(v: &Vec<char>) -> (res: Option<usize>)
    ensures
        res matches Some(i) ==> last_dot(v@) == Some(i as int) && i < v@.len(),
        res is None ==> last_dot(v@) is None,
{
    let mut i: usize = v.len();
    assert(v@.subrange(0, v@.len() as int) =~= v@);
    while i > 0
        invariant
            i <= v@.len(),
            last_dot(v@) == last_dot(v@.subrange(0, i as int)),
        decreases i,
    {
        assert(v@.subrange(0, i as int).drop_last() =~= v@.subrange(0, i as int - 1));
        if v[i - 1] == '.' {
            return Some(i - 1);
        }
        i = i - 1;
    }
    None
}

/// The reflection descriptor of one service.
fn describe(s: &GrpcServiceDef) -> (res: ServiceDescriptor)
    ensures
        describes_service(res, *s),
{
    let v = chars_of(s.name.as_str());
    let n = v.len();
    let (package, service_name) = match find_last_dot(&v) {
        Some(i) => {
            assert(i < n);
            (string_of_range(&v, 0, i), string_of_range(&v, i + 1, n))
        },
        None => {
            assert(v@.subrange(0, v@.len() as int) =~= v@);
            (String::new(), string_of_range(&v, 0, v.len()))
        },
    };
    let mut methods: Vec<MethodDescriptor> = Vec::new();
    let mut i: usize = 0;
    while i < s.methods.len()
        invariant
            i <= s.methods@.len(),
            methods@.len() == i,
            forall|j: int| 0 <= j < i ==> #[trigger] describes_method(methods@[j], s.methods@[j]),
        decreases s.methods.len() - i,
    {
        let m = &s.methods[i];
        let mut input_type = String::from_str(".");
        input_type.append(m.input_type.as_str());
        let mut output_type = String::from_str(".");
        output_type.append(m.output_type.as_str());
        let client_streaming = match m.method_type {
            GrpcMethodType::ClientStreaming | GrpcMethodType::BidirectionalStreaming => true,
            _ => false,
        };
        let server_streaming = match m.method_type {
            GrpcMethodType::ServerStreaming | GrpcMethodType::BidirectionalStreaming => true,
            _ => false,
        };
        methods.push(MethodDescriptor {
            name: m.name.clone(),
            input_type,
            output_type,
            client_streaming,
            server_streaming,
        });
        i = i + 1;
    }
    ServiceDescriptor { name: s.name.clone(), package, service_name, methods }
}

/// The error message for a payload over the size limit.
pub open spec fn too_large_message(size: nat, max: nat) -> Seq<char> {
    "Message size "@ + dec(size) + " exceeds maximum allowed size "@ + dec(max)
}

/// gRPC server that manages service registration and request dispatching.
pub struct GrpcServer {
    /// Server configuration
    pub config: GrpcConfig,
    /// Registered service definitions, keyed by service name
    pub services: StrMap<GrpcServiceDef>,
    /// Server running state
    pub running: bool,
    /// Request statistics
    pub stats: GrpcStats,
}

impl GrpcServer {
    /// Each registered definition is stored under its own name, and no more
    /// errors than requests have been counted.
    pub open spec fn wf(&self) -> bool {
        &&& self.services.wf()
        &&& forall|k: Seq<char>| #[trigger] self.services.to_map().dom().contains(k)
            ==> self.services.to_map()[k].name@ == k
        &&& self.stats.total_errors <= self.stats.total_requests
    }

    /// What the registry answers for a service and method name.
    pub open spec fn spec_resolve(&self, service: Seq<char>, method: Seq<char>) -> Resolution {
        if !self.services.to_map().dom().contains(service) {
            Resolution::NoService
        } else {
            let ms = self.services.to_map()[service].methods@;
            match first_method(ms, method) {
                Some(i) => Resolution::Found(ms[i]),
                None => Resolution::NoMethod,
            }
        }
    }

    /// The error that `resolve_method` reports, if any.
    pub open spec fn resolve_error(&self, service: Seq<char>, method: Seq<char>) -> Option<GrpcError> {
        match self.spec_resolve(service, method) {
            Resolution::Found(_) => None,
            Resolution::NoService => Some(GrpcError::ServiceNotFound),
            Resolution::NoMethod => Some(GrpcError::MethodNotFound),
        }
    }

    /// The status `handle_request` answers a request with.
    pub open spec fn spec_handle(&self, r: GrpcRequest) -> (i32, Seq<char>) {
        if r.payload@.len() > self.config.max_message_size {
            (3, too_large_message(r.payload@.len(), self.config.max_message_size as nat))
        } else {
            match self.resolve_error(r.service@, r.method@) {
                None => (0, "OK"@),
                Some(e) => (e.spec_code(), e.spec_message()),
            }
        }
    }

    /// Create a new gRPC server with the given configuration: no services, not
    /// running, all counters zero.
    pub fn new(config: GrpcConfig) -> (res: Self)
        ensures
            res.wf(),
            res.config == config,
            res.services.to_map() == Map::<Seq<char>, GrpcServiceDef>::empty(),
            !res.running,
            res.stats == (GrpcStats { total_requests: 0, active_streams: 0, total_errors: 0 }),
    {
        GrpcServer { config, services: StrMap::new(), running: false, stats: GrpcStats::new() }
    }

    /// Register a service definition under its name, replacing any earlier one.
    pub fn register_service(&mut self, service_def: GrpcServiceDef)
        requires
            old(self).wf(),
        ensures
            final(self).wf(),
            final(self).services.to_map() == old(self).services.to_map().insert(service_def.name@, service_def),
            final(self).config == old(self).config,
            final(self).stats == old(self).stats,
            final(self).running == old(self).running,
    {
        let name = service_def.name.clone();
        self.services.insert(name, service_def);
    }

    /// A copy of the service definition registered under `name`.
    pub fn get_service(&self, name: &str) -> (res: Option<GrpcServiceDef>)
        requires
            self.wf(),
        ensures
            res matches Some(d) ==> self.services.to_map().dom().contains(name@) && d.same(&self.services.to_map()[name@]),
            res is None ==> !self.services.to_map().dom().contains(name@),
    {
        match self.services.get(name) {
            Some(d) => Some(copy_service(d)),
            None => None,
        }
    }

    /// All registered service names, in registration order.
    pub fn list_services(&self) -> (res: Vec<String>)
        requires
            self.wf(),
        ensures
            views(res@) == self.services.seq().map_values(|e: (String, GrpcServiceDef)| e.0@),
    {
        let mut out: Vec<String> = Vec::new();
        let mut i: usize = 0;
        while i < self.services.entries.len()
            invariant
                i <= self.services.entries@.len(),
                out@.len() == i,
                forall|j: int| 0 <= j < i ==> #[trigger] out@[j]@ == self.services.entries@[j].0@,
            decreases self.services.entries.len() - i,
        {
            out.push(self.services.entries[i].0.clone());
            i = i + 1;
        }
        assert(views(out@) =~= self.services.seq().map_values(|e: (String, GrpcServiceDef)| e.0@));
        out
    }

    /// The server configuration.
    pub fn config(&self) -> (res: &GrpcConfig)
        ensures
            *res == self.config,
    {
        &self.config
    }

    /// Whether the server is running.
    pub fn is_running(&self) -> (res: bool)
        ensures
            res == self.running,
    {
        self.running
    }

    /// Current server statistics.
    pub fn stats(&self) -> (res: GrpcStats)
        ensures
            res == self.stats,
    {
        self.stats
    }

    /// Look up a method within a service.
    pub fn resolve_method(&self, service_name: &str, method_name: &str) -> (res: Result<GrpcMethodDef, GrpcError>)
        requires
            self.wf(),
        ensures
            res matches Ok(m) ==> (self.spec_resolve(service_name@, method_name@) matches Resolution::Found(d) && m.same(&d)),
            res matches Err(e) ==> (self.resolve_error(service_name@, method_name@) == Some(e)),
    {
        match self.services.get(service_name) {
            None => Err(GrpcError::ServiceNotFound),
            Some(service) => match service.get_method(method_name) {
                Some(m) => Ok(copy_method(m)),
                None => Err(GrpcError::MethodNotFound),
            },
        }
    }

    /// Handle one request: a payload over the size limit is refused as invalid;
    /// otherwise the service and method are resolved. Every request is counted,
    /// and every refused one as an error.
    pub fn handle_request(&mut self, request: &GrpcRequest) -> (res: GrpcResponse)
        requires
            old(self).wf(),
            old(self).stats.total_requests < u64::MAX,
            old(self).stats.active_streams < usize::MAX,
        ensures
            final(self).wf(),
            res.status.code == old(self).spec_handle(*request).0,
            res.status.message@ == old(self).spec_handle(*request).1,
            res.payload@.len() == 0,
            final(self).stats.total_requests == old(self).stats.total_requests + 1,
            final(self).stats.total_errors == old(self).stats.total_errors + if res.status.code == 0 { 0int } else { 1int },
            final(self).stats.active_streams == old(self).stats.active_streams,
            final(self).services == old(self).services,
            final(self).config == old(self).config,
            final(self).running == old(self).running,
    {
        self.stats.total_requests = self.stats.total_requests + 1;
        self.stats.active_streams = self.stats.active_streams + 1;
        if request.payload.len() > self.config.max_message_size {
            self.stats.total_errors = self.stats.total_errors + 1;
            self.stats.active_streams = self.stats.active_streams - 1;
            let mut msg = String::from_str("Message size ");
            append_u64(&mut msg, request.payload.len() as u64);
            msg.append(" exceeds maximum allowed size ");
            append_u64(&mut msg, self.config.max_message_size as u64);
            return GrpcResponse::error(GrpcStatus::error(GrpcError::InvalidMessage.code(), msg.as_str()));
        }
        let result = self.resolve_method(request.service.as_str(), request.method.as_str());
        match result {
            Ok(_) => {
                self.stats.active_streams = self.stats.active_streams - 1;
                GrpcResponse::ok(Vec::new())
            },
            Err(err) => {
                self.stats.total_errors = self.stats.total_errors + 1;
                self.stats.active_streams = self.stats.active_streams - 1;
                assert(err.spec_code() != 0);
                GrpcResponse::from_error(&err)
            },
        }
    }

    /// The number of registered services.
    pub fn service_count(&self) -> (res: usize)
        requires
            self.wf(),
        ensures
            res == self.services.to_map().dom().len(),
    {
        proof {
            self.services.lemma_len();
        }
        self.services.len()
    }

    /// Whether reflection is enabled.
    pub fn reflection_enabled(&self) -> (res: bool)
        ensures
            res == self.config.reflection,
    {
        self.config.reflection
    }

    /// How many of the requests a handled request answers with an error.
    pub open spec fn failed_count(&self, reqs: Seq<GrpcRequest>) -> int
        decreases reqs.len(),
    {
        if reqs.len() == 0 {
            0
        } else {
            self.failed_count(reqs.drop_last()) + if self.spec_handle(reqs.last()).0 != 0 { 1int } else { 0int }
        }
    }

    /// Handle a streaming exchange: nothing for no requests; the first
    /// request's method decides: an unknown one gives a single error response
    /// (and counts nothing), a unary one a single handled response, a streaming
    /// one a handled response per request. Every response has an empty
    /// payload; each handled request is counted, and each refused one as an
    /// error.
    pub fn handle_stream(&mut self, requests: &[GrpcRequest]) -> (res: Vec<GrpcResponse>)
        requires
            old(self).wf(),
            old(self).stats.total_requests + requests@.len() <= u64::MAX,
            old(self).stats.active_streams < usize::MAX,
        ensures
            final(self).wf(),
            forall|i: int| 0 <= i < res@.len() ==> (#[trigger] res@[i]).payload@.len() == 0,
            requests@.len() == 0 ==> res@.len() == 0 && final(self).stats == old(self).stats,
            requests@.len() > 0 ==> match old(self).spec_resolve(requests@[0].service@, requests@[0].method@) {
                Resolution::Found(m) => if m.method_type is Unary {
                    &&& res@.len() == 1
                    &&& res@[0].status.code == old(self).spec_handle(requests@[0]).0
                    &&& res@[0].status.message@ == old(self).spec_handle(requests@[0]).1
                    &&& final(self).stats.total_requests == old(self).stats.total_requests + 1
                    &&& final(self).stats.total_errors == old(self).stats.total_errors
                        + old(self).failed_count(requests@.subrange(0, 1))
                    &&& final(self).stats.active_streams == old(self).stats.active_streams
                } else {
                    &&& res@.len() == requests@.len()
                    &&& forall|i: int| 0 <= i < requests@.len() ==>
                        #[trigger] res@[i].status.code == old(self).spec_handle(requests@[i]).0
                        && res@[i].status.message@ == old(self).spec_handle(requests@[i]).1
                    &&& final(self).stats.total_requests == old(self).stats.total_requests + requests@.len()
                    &&& final(self).stats.total_errors == old(self).stats.total_errors + old(self).failed_count(requests@)
                    &&& final(self).stats.active_streams == old(self).stats.active_streams
                },
                _ => {
                    &&& res@.len() == 1
                    &&& res@[0].status.code == old(self).resolve_error(requests@[0].service@, requests@[0].method@)->0.spec_code()
                    &&& res@[0].status.message@ == old(self).resolve_error(requests@[0].service@, requests@[0].method@)->0.spec_message()
                    &&& final(self).stats == old(self).stats
                },
            },
            final(self).services == old(self).services,
            final(self).config == old(self).config,
            final(self).running == old(self).running,
    {
        let mut out: Vec<GrpcResponse> = Vec::new();
        if requests.len() == 0 {
            return out;
        }
        let first = &requests[0];
        let method = match self.resolve_method(first.service.as_str(), first.method.as_str()) {
            Ok(m) => m,
            Err(err) => {
                out.push(GrpcResponse::from_error(&err));
                return out;
            },
        };
        match method.method_type {
            GrpcMethodType::Unary => {
                let ghost s0 = *self;
                let r = self.handle_request(first);
                out.push(r);
                proof {
                    let one = requests@.subrange(0, 1);
                    assert(one.drop_last() =~= Seq::<GrpcRequest>::empty());
                    assert(s0.failed_count(one.drop_last()) == 0);
                    assert(one.last() == requests@[0]);
                    assert(s0.failed_count(one) == if s0.spec_handle(requests@[0]).0 != 0 { 1int } else { 0int });
                }
                out
            },
            _ => self.handle_each(requests),
        }
    }

    /// Handle every request in turn.
    fn handle_each(&mut self, requests: &[GrpcRequest]) -> (res: Vec<GrpcResponse>)
        requires
            old(self).wf(),
            old(self).stats.total_requests + requests@.len() <= u64::MAX,
            old(self).stats.active_streams < usize::MAX,
        ensures
            final(self).wf(),
            res@.len() == requests@.len(),
            forall|i: int| 0 <= i < requests@.len() ==>
                #[trigger] res@[i].status.code == old(self).spec_handle(requests@[i]).0
                && res@[i].status.message@ == old(self).spec_handle(requests@[i]).1,
            forall|i: int| 0 <= i < res@.len() ==> (#[trigger] res@[i]).payload@.len() == 0,
            final(self).stats.total_requests == old(self).stats.total_requests + requests@.len(),
            final(self).stats.total_errors == old(self).stats.total_errors + old(self).failed_count(requests@),
            final(self).stats.active_streams == old(self).stats.active_streams,
            final(self).services == old(self).services,
            final(self).config == old(self).config,
            final(self).running == old(self).running,
    {
        let mut out: Vec<GrpcResponse> = Vec::new();
        let ghost s0 = *self;
        let mut i: usize = 0;
        while i < requests.len()
            invariant
                self.wf(),
                i <= requests@.len(),
                out@.len() == i,
                self.services == s0.services,
                self.config == s0.config,
                self.running == s0.running,
                self.stats.active_streams == s0.stats.active_streams,
                s0.stats.active_streams < usize::MAX,
                self.stats.total_requests == s0.stats.total_requests + i,
                self.stats.total_errors == s0.stats.total_errors + s0.failed_count(requests@.subrange(0, i as int)),
                s0.stats.total_requests + requests@.len() <= u64::MAX,
                forall|j: int| 0 <= j < i ==> #[trigger] out@[j].status.code == s0.spec_handle(requests@[j]).0
                    && out@[j].status.message@ == s0.spec_handle(requests@[j]).1,
                forall|j: int| 0 <= j < i ==> (#[trigger] out@[j]).payload@.len() == 0,
            decreases requests.len() - i,
        {
            let r = self.handle_request(&requests[i]);
            proof {
                let sub = requests@.subrange(0, i as int + 1);
                assert(sub.drop_last() =~= requests@.subrange(0, i as int));
                assert(sub.last() == requests@[i as int]);
                assert(self.spec_handle(requests@[i as int]) == s0.spec_handle(requests@[i as int]));
            }
            out.push(r);
            i = i + 1;
        }
        assert(requests@.subrange(0, requests@.len() as int) =~= requests@);
        out
    }

    /// The reflection descriptors of every registered service, in
    /// registration order.
    pub fn reflection_descriptors(&self) -> (res: Vec<ServiceDescriptor>)
        requires
            self.wf(),
        ensures
            res@.len() == self.services.seq().len(),
            forall|i: int| 0 <= i < res@.len() ==> #[trigger] describes_service(res@[i], self.services.seq()[i].1),
    {
        let mut out: Vec<ServiceDescriptor> = Vec::new();
        let mut i: usize = 0;
        while i < self.services.entries.len()
            invariant
                i <= self.services.entries@.len(),
                out@.len() == i,
                forall|j: int| 0 <= j < i ==> #[trigger] describes_service(out@[j], self.services.entries@[j].1),
            decreases self.services.entries.len() - i,
        {
            out.push(describe(&self.services.entries[i].1));
            i = i + 1;
        }
        out
    }
}

} // verus!
