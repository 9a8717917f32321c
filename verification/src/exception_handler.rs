//! Exception handling: built-in handlers for validation, authentication,
//! authorization, not-found and internal errors, tried in priority order, and
//! the problem-details error responses they build.
use vstd::prelude::*;
use vstd::string::*;
use crate::http::{JsonField, JsonFieldView, Response, field_views, json_object_bytes, json_object_text, strip_ctl};
use crate::text::{owned, views};

verus! {

/// The members of a problem-details object: `type`, `title`, `detail`,
/// `status`, `instance`, then `handler_chain` and `timestamp` when given.
pub open spec fn problem_fields(
    kind: Seq<char>,
    title: Seq<char>,
    detail: Seq<char>,
    status: u16,
    instance: Seq<char>,
    chain: Option<Seq<Seq<char>>>,
    timestamp: Option<Seq<char>>,
) -> Seq<(Seq<char>, JsonFieldView)> {
    let base = seq![
        ("type"@, JsonFieldView::Str(kind)),
        ("title"@, JsonFieldView::Str(title)),
        ("detail"@, JsonFieldView::Str(detail)),
        ("status"@, JsonFieldView::Num(status as u64)),
        ("instance"@, JsonFieldView::Str(instance)),
    ];
    let with_chain = match chain {
        Some(c) => base.push(("handler_chain"@, JsonFieldView::StrList(c))),
        None => base,
    };
    match timestamp {
        Some(t) => with_chain.push(("timestamp"@, JsonFieldView::Str(t))),
        None => with_chain,
    }
}

/// The JSON text of a problem-details object.
pub open spec fn problem_json_of(
    kind: Seq<char>,
    title: Seq<char>,
    detail: Seq<char>,
    status: u16,
    instance: Seq<char>,
    chain: Option<Seq<Seq<char>>>,
    timestamp: Option<Seq<char>>,
) -> Seq<u8> {
    json_object_text(problem_fields(kind, title, detail, status, instance, chain, timestamp))
}

/// A problem-details object as JSON.
fn problem_json(kind: &str, title: &str, detail: &str, status: u16, instance: &str, chain: Option<&Vec<String>>,
    timestamp: Option<&str>) -> (res: Vec<u8>)
    ensures
        res@ == problem_json_of(kind@, title@, detail@, status, instance@, match chain {
            Some(c) => Some(views(c@)),
            None => None,
        }, match timestamp {
            Some(t) => Some(t@),
            None => None,
        }),
{
    let mut fields: Vec<(String, JsonField)> = vec![
        (String::from_str("type"), JsonField::Str(owned(kind))),
        (String::from_str("title"), JsonField::Str(owned(title))),
        (String::from_str("detail"), JsonField::Str(owned(detail))),
        (String::from_str("status"), JsonField::Num(status as u64)),
        (String::from_str("instance"), JsonField::Str(owned(instance))),
    ];
    let ghost base = field_views(fields@);
    match chain {
        Some(c) => {
            let copy = c.clone();
            assert(views(copy@) =~= views(c@));
            fields.push((String::from_str("handler_chain"), JsonField::StrList(copy)));
        },
        None => {},
    }
    match timestamp {
        Some(t) => fields.push((String::from_str("timestamp"), JsonField::Str(owned(t)))),
        None => {},
    }
    assert(field_views(fields@) =~= problem_fields(kind@, title@, detail@, status, instance@, match chain {
        Some(c) => Some(views(c@)),
        None => None,
    }, match timestamp {
        Some(t) => Some(t@),
        None => None,
    }));
    json_object_bytes(&fields)
}

/// The kind of an exception, which decides the handler that answers it.
#[derive(Debug, Clone, Copy, PartialEq, Eq, Structural)]
pub enum ExceptionKind {
    Validation,
    Authentication,
    Authorization,
    NotFound,
    Other,
}

/// An exception raised while handling a request.
pub struct Exception {
    pub kind: ExceptionKind,
    pub message: String,
}

/// What a handler sees of an exception.
pub struct ExceptionContext {
    /// The request path
    pub path: String,
    /// The exception
    pub exception: Exception,
    /// The handlers that were tried, in order
    pub handler_chain: Vec<String>,
}

impl ExceptionContext {
    /// A context for an exception raised on `path`.
    pub fn new(path: &str, exception: Exception) -> (res: Self)
        ensures
            res.path@ == path@,
            res.exception == exception,
            res.handler_chain@.len() == 0,
    {
        ExceptionContext { path: owned(path), exception, handler_chain: Vec::new() }
    }

    /// Record that a handler was tried.
    pub fn add_handler(&mut self, handler_name: &str)
        ensures
            final(self).handler_chain@.len() == old(self).handler_chain@.len() + 1,
            final(self).handler_chain@[old(self).handler_chain@.len() as int]@ == handler_name@,
            forall|j: int| 0 <= j < old(self).handler_chain@.len() ==> #[trigger] final(self).handler_chain@[j] == old(self).handler_chain@[j],
            final(self).path == old(self).path,
            final(self).exception == old(self).exception,
    {
        self.handler_chain.push(owned(handler_name));
    }
}

/// Configuration for exception handlers.
pub struct ExceptionHandlerConfig {
    /// Include exception details (development mode)
    pub include_traceback: bool,
    /// Message for internal server errors
    pub internal_error_message: String,
    /// Status code for unhandled exceptions
    pub default_status_code: u16,
    /// Media type for error responses
    pub media_type: String,
    /// Enable error logging
    pub enable_logging: bool,
    /// Log level for exceptions
    pub log_level: String,
}

impl ExceptionHandlerConfig {
    /// The production defaults: no details, "Internal Server Error", 500, JSON,
    /// logging at ERROR.
    pub open spec fn is_default(&self) -> bool {
        &&& !self.include_traceback
        &&& self.internal_error_message@ == "Internal Server Error"@
        &&& self.default_status_code == 500
        &&& self.media_type@ == "application/json"@
        &&& self.enable_logging
        &&& self.log_level@ == "ERROR"@
    }

    /// The default configuration.
    pub fn default() -> (res: Self)
        ensures
            res.is_default(),
    {
        ExceptionHandlerConfig {
            include_traceback: false,
            internal_error_message: String::from_str("Internal Server Error"),
            default_status_code: 500,
            media_type: String::from_str("application/json"),
            enable_logging: true,
            log_level: String::from_str("ERROR"),
        }
    }

    /// A copy of the configuration.
    pub fn duplicate(&self) -> (res: Self)
        ensures
            res.include_traceback == self.include_traceback,
            res.internal_error_message@ == self.internal_error_message@,
            res.default_status_code == self.default_status_code,
            res.media_type@ == self.media_type@,
            res.enable_logging == self.enable_logging,
            res.log_level@ == self.log_level@,
    {
        ExceptionHandlerConfig {
            include_traceback: self.include_traceback,
            internal_error_message: self.internal_error_message.clone(),
            default_status_code: self.default_status_code,
            media_type: self.media_type.clone(),
            enable_logging: self.enable_logging,
            log_level: self.log_level.clone(),
        }
    }
}

/// The problem-details answer a handler gives: status, the configured media
/// type, and the JSON body.
pub open spec fn problem_response(r: Response, status: u16, media_type: Seq<char>, body: Seq<u8>) -> bool {
    &&& r.wf()
    &&& r.status == status
    &&& r.header_map() == map!["Content-Type"@ => strip_ctl(media_type)]
    &&& r.body@ == body
}

/// A response with a status, a media type and a body.
fn problem(status: u16, media_type: &str, body: Vec<u8>) -> (res: Response)
    ensures
        problem_response(res, status, media_type@, body@),
{
    let mut r = Response::new(status);
    r.set_header("Content-Type", media_type);
    r.body = body;
    assert(r.header_map() =~= map!["Content-Type"@ => strip_ctl(media_type@)]);
    r
}

/// The built-in handlers, each answering one kind of exception (the internal
/// server error handler answers every kind).
pub enum BuiltinHandler {
    Validation(ExceptionHandlerConfig),
    Authentication(ExceptionHandlerConfig),
    Authorization(ExceptionHandlerConfig),
    NotFound(ExceptionHandlerConfig),
    InternalServerError(ExceptionHandlerConfig),
}

impl BuiltinHandler {
    /// The configuration the handler answers with.
    pub open spec fn handler_config(&self) -> ExceptionHandlerConfig {
        match self {
            BuiltinHandler::Validation(c) => *c,
            BuiltinHandler::Authentication(c) => *c,
            BuiltinHandler::Authorization(c) => *c,
            BuiltinHandler::NotFound(c) => *c,
            BuiltinHandler::InternalServerError(c) => *c,
        }
    }

    /// The handler's priority (lower runs first).
    pub open spec fn spec_priority(&self) -> i32 {
        match self {
            BuiltinHandler::Validation(_) => -10i32,
            BuiltinHandler::Authentication(_) => -20i32,
            BuiltinHandler::Authorization(_) => -30i32,
            BuiltinHandler::NotFound(_) => -40i32,
            BuiltinHandler::InternalServerError(_) => 100i32,
        }
    }

    /// The handler's name.
    pub open spec fn spec_name(&self) -> Seq<char> {
        match self {
            BuiltinHandler::Validation(_) => "validation_error_handler"@,
            BuiltinHandler::Authentication(_) => "authentication_error_handler"@,
            BuiltinHandler::Authorization(_) => "authorization_error_handler"@,
            BuiltinHandler::NotFound(_) => "not_found_error_handler"@,
            BuiltinHandler::InternalServerError(_) => "internal_server_error_handler"@,
        }
    }

    /// Whether the handler answers an exception of this kind.
    pub open spec fn accepts(&self, kind: ExceptionKind) -> bool {
        match self {
            BuiltinHandler::Validation(_) => kind == ExceptionKind::Validation,
            BuiltinHandler::Authentication(_) => kind == ExceptionKind::Authentication,
            BuiltinHandler::Authorization(_) => kind == ExceptionKind::Authorization,
            BuiltinHandler::NotFound(_) => kind == ExceptionKind::NotFound,
            BuiltinHandler::InternalServerError(_) => true,
        }
    }

    /// The answer the handler gives, when it accepts the exception.
    pub open spec fn answers(&self, ctx: &ExceptionContext, r: Response) -> bool {
        self.answers_with(ctx.path@, ctx.exception.message@, views(ctx.handler_chain@), r)
    }

    /// The answer the handler gives on `path` for an exception with message
    /// `detail`, after the handlers `chain` were tried.
    #[verifier::opaque]
    pub open spec fn answers_with(&self, path: Seq<char>, detail: Seq<char>, chain: Seq<Seq<char>>, r: Response) -> bool {
        match self {
            BuiltinHandler::Validation(c) => problem_response(r, 400, c.media_type@,
                problem_json_of("validation_error"@, "Validation Error"@, detail, 400, path, None, None)),
            BuiltinHandler::Authentication(c) => {
                &&& r.wf()
                &&& r.status == 401
                &&& r.header_map() == map!["Content-Type"@ => strip_ctl(c.media_type@), "WWW-Authenticate"@ => "Bearer"@]
                &&& r.body@ == problem_json_of("authentication_error"@, "Authentication Required"@, detail, 401, path, None, None)
            },
            BuiltinHandler::Authorization(c) => problem_response(r, 403, c.media_type@,
                problem_json_of("authorization_error"@, "Forbidden"@, detail, 403, path, None, None)),
            BuiltinHandler::NotFound(c) => problem_response(r, 404, c.media_type@,
                problem_json_of("not_found_error"@, "Not Found"@, detail, 404, path, None, None)),
            BuiltinHandler::InternalServerError(c) => problem_response(r, c.default_status_code, c.media_type@,
                problem_json_of("internal_server_error"@, "Internal Server Error"@,
                    if c.include_traceback { detail } else { c.internal_error_message@ },
                    c.default_status_code, path,
                    if c.include_traceback { Some(chain) } else { None }, None)),
        }
    }

    /// The handler's priority (lower runs first).
    pub fn priority(&self) -> (res: i32)
        ensures
            res == self.spec_priority(),
    {
        match self {
            BuiltinHandler::Validation(_) => -10,
            BuiltinHandler::Authentication(_) => -20,
            BuiltinHandler::Authorization(_) => -30,
            BuiltinHandler::NotFound(_) => -40,
            BuiltinHandler::InternalServerError(_) => 100,
        }
    }

    /// The handler's name.
    pub fn name(&self) -> (res: &'static str)
        ensures
            res@ == self.spec_name(),
    {
        match self {
            BuiltinHandler::Validation(_) => "validation_error_handler",
            BuiltinHandler::Authentication(_) => "authentication_error_handler",
            BuiltinHandler::Authorization(_) => "authorization_error_handler",
            BuiltinHandler::NotFound(_) => "not_found_error_handler",
            BuiltinHandler::InternalServerError(_) => "internal_server_error_handler",
        }
    }

    /// Answer the exception, or decline it when it is not of the handler's kind.
    pub fn handle(&self, ctx: &ExceptionContext) -> (res: Option<Response>)
        ensures
            self.accepts(ctx.exception.kind) ==> (res matches Some(r) && self.answers(ctx, r)),
            !self.accepts(ctx.exception.kind) ==> res is None,
    {
        let detail = ctx.exception.message.as_str();
        let path = ctx.path.as_str();
        proof {
            reveal(BuiltinHandler::answers_with);
        }
        match self {
            BuiltinHandler::Validation(c) => {
                if ctx.exception.kind != ExceptionKind::Validation {
                    return None;
                }
                let body = problem_json("validation_error", "Validation Error", detail, 400, path, None, None);
                Some(problem(400, c.media_type.as_str(), body))
            },
            BuiltinHandler::Authentication(c) => {
                if ctx.exception.kind != ExceptionKind::Authentication {
                    return None;
                }
                let body = problem_json("authentication_error", "Authentication Required", detail, 401, path, None, None);
                let mut r = Response::new(401);
                r.set_header("Content-Type", c.media_type.as_str());
                r.set_header("WWW-Authenticate", "Bearer");
                r.body = body;
                proof {
                    reveal_strlit("Bearer");
                    assert(strip_ctl("Bearer"@) =~= "Bearer"@) by {
                        reveal_with_fuel(strip_ctl, 7);
                        assert("Bearer"@.drop_last() =~= "Beare"@) by { reveal_strlit("Beare"); }
                    }
                    assert(r.header_map() =~= map!["Content-Type"@ => strip_ctl(c.media_type@), "WWW-Authenticate"@ => "Bearer"@]);
                }
                Some(r)
            },
            BuiltinHandler::Authorization(c) => {
                if ctx.exception.kind != ExceptionKind::Authorization {
                    return None;
                }
                let body = problem_json("authorization_error", "Forbidden", detail, 403, path, None, None);
                Some(problem(403, c.media_type.as_str(), body))
            },
            BuiltinHandler::NotFound(c) => {
                if ctx.exception.kind != ExceptionKind::NotFound {
                    return None;
                }
                let body = problem_json("not_found_error", "Not Found", detail, 404, path, None, None);
                Some(problem(404, c.media_type.as_str(), body))
            },
            BuiltinHandler::InternalServerError(c) => {
                let body = if c.include_traceback {
                    problem_json("internal_server_error", "Internal Server Error", detail, c.default_status_code, path,
                        Some(&ctx.handler_chain), None)
                } else {
                    problem_json("internal_server_error", "Internal Server Error", c.internal_error_message.as_str(),
                        c.default_status_code, path, None, None)
                };
                Some(problem(c.default_status_code, c.media_type.as_str(), body))
            },
        }
    }
}

/// Built-in handler for validation errors (400).
pub struct ValidationErrorHandler;

impl ValidationErrorHandler {
    /// The validation error handler with a configuration.
    pub fn new(config: ExceptionHandlerConfig) -> (res: BuiltinHandler)
        ensures
            res == BuiltinHandler::Validation(config),
    {
        BuiltinHandler::Validation(config)
    }
}

/// Built-in handler for authentication errors (401).
pub struct AuthenticationErrorHandler;

impl AuthenticationErrorHandler {
    /// The authentication error handler with a configuration.
    pub fn new(config: ExceptionHandlerConfig) -> (res: BuiltinHandler)
        ensures
            res == BuiltinHandler::Authentication(config),
    {
        BuiltinHandler::Authentication(config)
    }
}

/// Built-in handler for authorization errors (403).
pub struct AuthorizationErrorHandler;

impl AuthorizationErrorHandler {
    /// The authorization error handler with a configuration.
    pub fn new(config: ExceptionHandlerConfig) -> (res: BuiltinHandler)
        ensures
            res == BuiltinHandler::Authorization(config),
    {
        BuiltinHandler::Authorization(config)
    }
}

/// Built-in handler for not-found errors (404).
pub struct NotFoundErrorHandler;

impl NotFoundErrorHandler {
    /// The not-found handler with a configuration.
    pub fn new(config: ExceptionHandlerConfig) -> (res: BuiltinHandler)
        ensures
            res == BuiltinHandler::NotFound(config),
    {
        BuiltinHandler::NotFound(config)
    }
}

/// Built-in catch-all handler for internal server errors.
pub struct InternalServerErrorHandler;

impl InternalServerErrorHandler {
    /// The internal server error handler with a configuration.
    pub fn new(config: ExceptionHandlerConfig) -> (res: BuiltinHandler)
        ensures
            res == BuiltinHandler::InternalServerError(config),
    {
        BuiltinHandler::InternalServerError(config)
    }
}

/// The handlers are in priority order.
pub open spec fn by_priority(hs: Seq<BuiltinHandler>) -> bool {
    forall|i: int, j: int| 0 <= i < j < hs.len() ==> hs[i].spec_priority() <= hs[j].spec_priority()
}

/// Where a handler of priority `p` goes: after the leading handlers of no
/// greater priority.
pub open spec fn insert_pos(hs: Seq<BuiltinHandler>, p: i32) -> int
    decreases hs.len(),
{
    if hs.len() == 0 {
        0
    } else if hs[0].spec_priority() <= p {
        1 + insert_pos(hs.drop_first(), p)
    } else {
        0
    }
}

/// Index of the first handler that accepts `kind`.
pub open spec fn first_accepting(hs: Seq<BuiltinHandler>, kind: ExceptionKind) -> Option<int>
    decreases hs.len(),
{
    if hs.len() == 0 {
        None
    } else if hs[0].accepts(kind) {
        Some(0)
    } else {
        match first_accepting(hs.drop_first(), kind) {
            Some(i) => Some(i + 1),
            None => None,
        }
    }
}

proof fn lemma_first_accepting_is(hs: Seq<BuiltinHandler>, kind: ExceptionKind, i: int)
    requires
        0 <= i < hs.len(),
        hs[i].accepts(kind),
        forall|j: int| 0 <= j < i ==> !hs[j].accepts(kind),
    ensures
        first_accepting(hs, kind) == Some(i),
    decreases i,
{
    if i > 0 {
        assert forall|j: int| 0 <= j < i - 1 implies !hs.drop_first()[j].accepts(kind) by {
            assert(hs.drop_first()[j] == hs[j + 1]);
        }
        lemma_first_accepting_is(hs.drop_first(), kind, i - 1);
    }
}

proof fn lemma_first_accepting_none(hs: Seq<BuiltinHandler>, kind: ExceptionKind)
    requires
        forall|j: int| 0 <= j < hs.len() ==> !hs[j].accepts(kind),
    ensures
        first_accepting(hs, kind) is None,
    decreases hs.len(),
{
    if hs.len() > 0 {
        assert forall|j: int| 0 <= j < hs.len() - 1 implies !hs.drop_first()[j].accepts(kind) by {
            assert(hs.drop_first()[j] == hs[j + 1]);
        }
        lemma_first_accepting_none(hs.drop_first(), kind);
    }
}

proof fn lemma_chain_names(chain: Seq<String>, hs: Seq<BuiltinHandler>, n: int)
    requires
        0 <= n <= hs.len(),
        chain.len() == n,
        forall|j: int| 0 <= j < n ==> #[trigger] chain[j]@ == hs[j].spec_name(),
    ensures
        views(chain) == hs.subrange(0, n).map_values(|h: BuiltinHandler| h.spec_name()),
{
    assert(views(chain) =~= hs.subrange(0, n).map_values(|h: BuiltinHandler| h.spec_name()));
}

/// Global exception handling middleware.
pub struct ExceptionHandlerMiddleware {
    pub handlers: Vec<BuiltinHandler>,
    pub config: ExceptionHandlerConfig,
}

impl ExceptionHandlerMiddleware {
    pub open spec fn wf(&self) -> bool {
        by_priority(self.handlers@)
    }

    /// The five built-in handlers with the default configuration, in priority
    /// order: not found, authorization, authentication, validation, internal.
    pub fn new() -> (res: Self)
        ensures
            res.wf(),
            res.config.is_default(),
            res.handlers@.len() == 5,
            res.handlers@[0] is NotFound,
            res.handlers@[1] is Authorization,
            res.handlers@[2] is Authentication,
            res.handlers@[3] is Validation,
            res.handlers@[4] is InternalServerError,
            forall|i: int| 0 <= i < 5 ==> (#[trigger] res.handlers@[i]).handler_config().is_default(),
    {
        let config = ExceptionHandlerConfig::default();
        let mut handlers: Vec<BuiltinHandler> = Vec::new();
        handlers.push(NotFoundErrorHandler::new(config.duplicate()));
        handlers.push(AuthorizationErrorHandler::new(config.duplicate()));
        handlers.push(AuthenticationErrorHandler::new(config.duplicate()));
        handlers.push(ValidationErrorHandler::new(config.duplicate()));
        handlers.push(InternalServerErrorHandler::new(config.duplicate()));
        ExceptionHandlerMiddleware { handlers, config }
    }

    /// The built-in handlers (with the default configuration) and another
    /// configuration for the middleware itself.
    pub fn with_config(config: ExceptionHandlerConfig) -> (res: Self)
        ensures
            res.wf(),
            res.config == config,
            res.handlers@.len() == 5,
            res.handlers@[0] is NotFound,
            res.handlers@[1] is Authorization,
            res.handlers@[2] is Authentication,
            res.handlers@[3] is Validation,
            res.handlers@[4] is InternalServerError,
            forall|i: int| 0 <= i < 5 ==> (#[trigger] res.handlers@[i]).handler_config().is_default(),
    {
        let mut m = Self::new();
        m.config = config;
        m
    }

    /// Add a handler after those of no greater priority.
    pub fn add_handler(self, handler: BuiltinHandler) -> (res: Self)
        requires
            self.wf(),
        ensures
            res.wf(),
            res.handlers@.len() == self.handlers@.len() + 1,
            res.handlers@ == self.handlers@.insert(insert_pos(self.handlers@, handler.spec_priority()), handler),
            res.config == self.config,
    {
        let mut m = self;
        let p = handler.priority();
        let mut k: usize = 0;
        assert(m.handlers@.subrange(0, m.handlers@.len() as int) =~= m.handlers@);
        while k < m.handlers.len() && m.handlers[k].priority() <= p
            invariant
                k <= m.handlers@.len(),
                forall|j: int| 0 <= j < k ==> m.handlers@[j].spec_priority() <= p,
                insert_pos(m.handlers@, p) == k + insert_pos(m.handlers@.subrange(k as int, m.handlers@.len() as int), p),
            decreases m.handlers.len() - k,
        {
            proof {
                let rest = m.handlers@.subrange(k as int, m.handlers@.len() as int);
                assert(rest[0] == m.handlers@[k as int]);
                assert(rest.drop_first() =~= m.handlers@.subrange(k + 1, m.handlers@.len() as int));
            }
            k = k + 1;
        }
        let ghost before = m.handlers@;
        proof {
            let rest = before.subrange(k as int, before.len() as int);
            if k < before.len() {
                assert(rest[0] == before[k as int]);
            }
            assert(insert_pos(before, p) == k);
        }
        m.handlers.insert(k, handler);
        proof {
            assert forall|i: int, j: int| 0 <= i < j < m.handlers@.len() implies
                m.handlers@[i].spec_priority() <= m.handlers@[j].spec_priority() by {
                if j < k {
                } else if j == k {
                    assert(i < k);
                } else if i < k {
                    assert(m.handlers@[j] == before[j - 1]);
                } else if i == k {
                    assert(m.handlers@[j] == before[j - 1]);
                    if k < before.len() {
                        assert(before[k as int].spec_priority() > p);
                        assert(before[k as int].spec_priority() <= before[j - 1].spec_priority() || j - 1 == k);
                    }
                } else {
                    assert(m.handlers@[i] == before[i - 1]);
                    assert(m.handlers@[j] == before[j - 1]);
                }
            }
        }
        m
    }

    /// The answer to an exception: that of the first handler, in priority
    /// order, that accepts its kind; with none, the default status and the
    /// internal message (or, with details on, "Unhandled exception: ...").
    #[verifier::rlimit(40)]
    pub fn handle_exception(&self, path: &str, exception: Exception) -> (res: Response)
        ensures
            match first_accepting(self.handlers@, exception.kind) {
                Some(i) => self.handlers@[i].answers_with(path@, exception.message@,
                    self.handlers@.subrange(0, i + 1).map_values(|h: BuiltinHandler| h.spec_name()), res),
                None => problem_response(res, self.config.default_status_code, self.config.media_type@,
                    vstd::utf8::encode_utf8(if self.config.include_traceback {
                        "Unhandled exception: "@ + exception.message@
                    } else {
                        self.config.internal_error_message@
                    })),
            },
    {
        let ghost kind = exception.kind;
        let ghost ex = exception;
        let mut ctx = ExceptionContext::new(path, exception);
        let mut i: usize = 0;
        while i < self.handlers.len()
            invariant
                i <= self.handlers@.len(),
                ctx.path@ == path@,
                ctx.exception == ex,
                kind == ex.kind,
                ex == exception,
                forall|j: int| 0 <= j < i ==> !self.handlers@[j].accepts(kind),
                ctx.handler_chain@.len() == i,
                forall|j: int| 0 <= j < i ==> #[trigger] ctx.handler_chain@[j]@ == self.handlers@[j].spec_name(),
            decreases self.handlers.len() - i,
        {
            let name = self.handlers[i].name();
            ctx.add_handler(name);
            assert forall|j: int| 0 <= j < i + 1 implies #[trigger] ctx.handler_chain@[j]@ == self.handlers@[j].spec_name() by {
            }
            match self.handlers[i].handle(&ctx) {
                Some(r) => {
                    proof {
                        lemma_first_accepting_is(self.handlers@, kind, i as int);
                        lemma_chain_names(ctx.handler_chain@, self.handlers@, i as int + 1);
                    }
                    return r;
                },
                None => {},
            }
            i = i + 1;
        }
        proof {
            lemma_first_accepting_none(self.handlers@, kind);
        }
        let msg = if self.config.include_traceback {
            let mut s = String::from_str("Unhandled exception: ");
            s.append(ctx.exception.message.as_str());
            s
        } else {
            self.config.internal_error_message.clone()
        };
        let body = vstd::slice::slice_to_vec(msg.as_str().as_bytes());
        problem(self.config.default_status_code, self.config.media_type.as_str(), body)
    }

    /// Runs very late.
    pub fn priority(&self) -> (res: i32)
        ensures
            res == 100,
    {
        100
    }

    /// The middleware's name.
    pub fn name(&self) -> (res: &'static str)
        ensures
            res@ == "exception_handler"@,
    {
        "exception_handler"
    }
}

/// A problem-details error response, stamped with the current time when
/// details are on.
pub fn create_error_response(
    status: u16,
    error_type: &str,
    title: &str,
    detail: &str,
    instance: &str,
    include_traceback: bool,
) -> (res: Response)
    ensures
        !include_traceback ==> problem_response(res, status, "application/json"@,
            problem_json_of(error_type@, title@, detail@, status, instance@, None, None)),
        include_traceback ==> exists|t: Seq<char>| problem_response(res, status, "application/json"@,
            #[trigger] problem_json_of(error_type@, title@, detail@, status, instance@, None, Some(t))),
{
    if include_traceback {
        let now = crate::health::now_rfc3339();
        let body = problem_json(error_type, title, detail, status, instance, None, Some(now.as_str()));
        problem(status, "application/json", body)
    } else {
        let body = problem_json(error_type, title, detail, status, instance, None, None);
        problem(status, "application/json", body)
    }
}

/// With the default handlers (as `new` installs them), an exception of no
/// particular kind is answered by the internal-error handler, with status 500.
pub proof fn lemma_unclassified_is_internal_error(hs: Seq<BuiltinHandler>, path: Seq<char>, detail: Seq<char>, chain: Seq<Seq<char>>, r: Response)
    requires
        hs.len() == 5,
        hs[0] is NotFound,
        hs[1] is Authorization,
        hs[2] is Authentication,
        hs[3] is Validation,
        hs[4] is InternalServerError,
        forall|i: int| 0 <= i < 5 ==> (#[trigger] hs[i]).handler_config().is_default(),
        hs[4].answers_with(path, detail, chain, r),
    ensures
        first_accepting(hs, ExceptionKind::Other) == Some(4int),
        r.status == 500,
{
    lemma_first_accepting_is(hs, ExceptionKind::Other, 4);
    assert(hs[4].handler_config().is_default());
    reveal(BuiltinHandler::answers_with);
}

} // verus!
