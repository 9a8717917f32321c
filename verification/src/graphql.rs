//! GraphQL endpoint: configuration, which requests it answers, how a query is
//! dispatched to a resolver, and the playground page.
use vstd::prelude::*;
use vstd::string::*;
use crate::http::{JsonValue, Request};
use crate::strmap::StrMap;
use crate::text::{
    chars_of, contains_sub, is_prefix, is_ws, is_ws_exec, owned, replace_all, replace_str, str_contains, str_eq,
    str_starts_with, str_trim, trim, find_char, first_index_of, string_of_range,
};

verus! {

/// A location in a GraphQL document.
#[derive(Debug, Clone, Copy, PartialEq, Eq, Structural)]
pub struct GraphQLLocation {
    pub line: u32,
    pub column: u32,
}

/// GraphQL type kinds.
#[derive(Debug, Clone, Copy, PartialEq, Eq, Structural)]
pub enum GraphQLType {
    Scalar,
    Object,
    Interface,
    Union,
    Enum,
    InputObject,
    List,
    NonNull,
}

impl GraphQLType {
    /// The kind's name as introspection reports it (its Rust name in upper case).
    pub fn kind_name(&self) -> (res: &'static str)
        ensures
            res@ == match self {
                GraphQLType::Scalar => "SCALAR"@,
                GraphQLType::Object => "OBJECT"@,
                GraphQLType::Interface => "INTERFACE"@,
                GraphQLType::Union => "UNION"@,
                GraphQLType::Enum => "ENUM"@,
                GraphQLType::InputObject => "INPUTOBJECT"@,
                GraphQLType::List => "LIST"@,
                GraphQLType::NonNull => "NONNULL"@,
            },
    {
        match self {
            GraphQLType::Scalar => "SCALAR",
            GraphQLType::Object => "OBJECT",
            GraphQLType::Interface => "INTERFACE",
            GraphQLType::Union => "UNION",
            GraphQLType::Enum => "ENUM",
            GraphQLType::InputObject => "INPUTOBJECT",
            GraphQLType::List => "LIST",
            GraphQLType::NonNull => "NONNULL",
        }
    }
}

/// GraphQL configuration.
pub struct GraphQLConfig {
    /// GraphQL endpoint path
    pub path: String,
    /// Enable GraphQL Playground
    pub playground: bool,
    /// Playground path (default: /graphql)
    pub playground_path: Option<String>,
    /// Enable introspection
    pub introspection: bool,
    /// Maximum query depth
    pub max_depth: Option<usize>,
    /// Maximum query complexity
    pub max_complexity: Option<usize>,
    /// Enable batching
    pub batching: bool,
    /// Enable tracing extension
    pub tracing: bool,
}

impl GraphQLConfig {
    /// The defaults: `/graphql`, playground and introspection on, depth 10,
    /// complexity 1000, no batching or tracing.
    pub open spec fn is_default(&self) -> bool {
        &&& self.path@ == "/graphql"@
        &&& self.playground
        &&& self.playground_path is None
        &&& self.introspection
        &&& self.max_depth == Some(10usize)
        &&& self.max_complexity == Some(1000usize)
        &&& !self.batching
        &&& !self.tracing
    }

    /// The default configuration.
    pub fn default() -> (res: Self)
        ensures
            res.is_default(),
    {
        GraphQLConfig {
            path: String::from_str("/graphql"),
            playground: true,
            playground_path: None,
            introspection: true,
            max_depth: Some(10),
            max_complexity: Some(1000),
            batching: false,
            tracing: false,
        }
    }

    /// The default configuration.
    pub fn new() -> (res: Self)
        ensures
            res.is_default(),
    {
        Self::default()
    }

    /// Set the endpoint path.
    pub fn with_path(self, path: &str) -> (res: Self)
        ensures
            res.path@ == path@,
            res == (GraphQLConfig { path: res.path, ..self }),
    {
        let mut c = self;
        c.path = owned(path);
        c
    }

    /// Enable or disable the playground.
    pub fn with_playground(self, enabled: bool) -> (res: Self)
        ensures
            res == (GraphQLConfig { playground: enabled, ..self }),
    {
        let mut c = self;
        c.playground = enabled;
        c
    }

    /// Enable or disable introspection.
    pub fn with_introspection(self, enabled: bool) -> (res: Self)
        ensures
            res == (GraphQLConfig { introspection: enabled, ..self }),
    {
        let mut c = self;
        c.introspection = enabled;
        c
    }

    /// Set the maximum query depth.
    pub fn with_max_depth(self, depth: usize) -> (res: Self)
        ensures
            res == (GraphQLConfig { max_depth: Some(depth), ..self }),
    {
        let mut c = self;
        c.max_depth = Some(depth);
        c
    }

    /// Set the maximum query complexity.
    pub fn with_max_complexity(self, complexity: usize) -> (res: Self)
        ensures
            res == (GraphQLConfig { max_complexity: Some(complexity), ..self }),
    {
        let mut c = self;
        c.max_complexity = Some(complexity);
        c
    }
}

// ============================================================================
// Query dispatch
// ============================================================================

/// A character that ends a field name in the simplified query reading.
pub open spec fn is_field_delim(c: char) -> bool {
    is_ws(c) || c == '{' || c == '(' || c == '}'
}

/// Index of the first character in `s` from `i` on that satisfies `p` (or the length).
pub open spec fn scan_delims(s: Seq<char>, i: int, delim: bool) -> int
    decreases s.len() - i,
{
    if i < 0 || i >= s.len() {
        s.len() as int
    } else if is_field_delim(s[i]) == delim {
        i
    } else {
        scan_delims(s, i + 1, delim)
    }
}

/// The first non-empty token of `s` when it is cut at the delimiters.
pub open spec fn first_token(s: Seq<char>) -> Option<Seq<char>> {
    let start = scan_delims(s, 0, false);
    if start >= s.len() {
        None
    } else {
        Some(s.subrange(start, scan_delims(s, start, true)))
    }
}

/// The field a query asks for: the keywords `query`, `mutation` and
/// `subscription` removed, then the first token after the first `{`.
pub open spec fn spec_field_name(query: Seq<char>) -> Option<Seq<char>> {
    let q = replace_all(replace_all(replace_all(query, "query"@, Seq::empty()), "mutation"@, Seq::empty()), "subscription"@, Seq::empty());
    match first_index_of(q, '{') {
        Some(i) => first_token(q.subrange(i + 1, q.len() as int)),
        None => None,
    }
}

proof fn lemma_scan_bounds(s: Seq<char>, i: int, delim: bool)
    requires
        0 <= i <= s.len(),
    ensures
        i <= scan_delims(s, i, delim) <= s.len(),
    decreases s.len() - i,
{
    if i < s.len() && is_field_delim(s[i]) != delim {
        lemma_scan_bounds(s, i + 1, delim);
    }
}

/// Scan `v` from `i` for the first character whose delimiter status is `delim`.
fn scan(v: &Vec<char>, i: usize, delim: bool) -> (res: usize)
    requires
        i <= v@.len(),
    ensures
        res == scan_delims(v@, i as int, delim),
        i <= res <= v@.len(),
{
    let mut j = i;
    while j < v.len()
        invariant
            i <= j <= v@.len(),
            scan_delims(v@, i as int, delim) == scan_delims(v@, j as int, delim),
        decreases v.len() - j,
    {
        let c = v[j];
        let d = is_ws_exec(c) || c == '{' || c == '(' || c == '}';
        if d == delim {
            return j;
        }
        j = j + 1;
    }
    j
}

/// The field a query asks for, in the simplified reading.
pub fn extract_field_name(query: &str) -> (res: Option<String>)
    ensures
        res matches Some(f) ==> spec_field_name(query@) == Some(f@),
        res is None ==> spec_field_name(query@) is None,
{
    proof {
        reveal_strlit("query");
        reveal_strlit("mutation");
        reveal_strlit("subscription");
    }
    let a = replace_str(query, "query", "");
    let b = replace_str(a.as_str(), "mutation", "");
    let q = replace_str(b.as_str(), "subscription", "");
    proof {
        reveal_strlit("");
        assert(""@ =~= Seq::<char>::empty());
    }
    let v = chars_of(q.as_str());
    match find_char(&v, '{') {
        Some(i) => {
            let n = v.len();
            assert(i < n);
            let rest = string_of_range(&v, i + 1, n);
            let r = chars_of(rest.as_str());
            let start = scan(&r, 0, false);
            if start >= r.len() {
                return None;
            }
            let end = scan(&r, start, true);
            Some(string_of_range(&r, start, end))
        },
        None => None,
    }
}

/// How a query is to be answered.
pub enum QueryPlan {
    /// An introspection query, answered from the schema.
    Introspection,
    /// Introspection was asked for but is disabled.
    IntrospectionDisabled,
    /// The resolver registered as `type.field` answers it.
    Resolve { target: String, field_name: String },
    /// No field could be read from the query.
    Unparsable,
}

/// The type a query goes to: the mutation type (or none) for a mutation, else
/// the query type.
pub open spec fn target_type(trimmed: Seq<char>, query_type: Seq<char>, mutation_type: Option<Seq<char>>) -> Seq<char> {
    if is_prefix("mutation"@, trimmed) {
        match mutation_type {
            Some(m) => m,
            None => Seq::empty(),
        }
    } else {
        query_type
    }
}

/// The message when no resolver is registered for `type.field`.
pub open spec fn no_resolver_message(target: Seq<char>, field_name: Seq<char>) -> Seq<char> {
    "No resolver found for "@ + target + "."@ + field_name
}

/// The GraphQL endpoint.
pub struct GraphQLMiddleware {
    pub config: GraphQLConfig,
}

/// Which way a request to the endpoint goes.
#[derive(Debug, Clone, Copy, PartialEq, Eq, Structural)]
pub enum GraphQLRoute {
    /// Not a GraphQL request.
    Pass,
    /// The playground page.
    Playground,
    /// A query in the body.
    Query,
    /// Anything else: 405.
    MethodNotAllowed,
}

impl GraphQLMiddleware {
    /// An endpoint with the given configuration.
    pub fn new(config: GraphQLConfig) -> (res: Self)
        ensures
            res.config == config,
    {
        GraphQLMiddleware { config }
    }

    /// How a query is answered, given the schema's query and mutation types.
    pub fn plan(&self, query: &str, query_type: &str, mutation_type: Option<&str>) -> (res: QueryPlan)
        ensures
            ({
                let q = trim(query@);
                let m = match mutation_type { Some(m) => Some(m@), None => None };
                if contains_sub(q, "__schema"@) || contains_sub(q, "__type"@) {
                    if self.config.introspection { res is Introspection } else { res is IntrospectionDisabled }
                } else {
                    match spec_field_name(q) {
                        Some(f) => res matches QueryPlan::Resolve { target, field_name }
                            && target@ == target_type(q, query_type@, m) && field_name@ == f,
                        None => res is Unparsable,
                    }
                }
            }),
    {
        let q = str_trim(query);
        if str_contains(q.as_str(), "__schema") || str_contains(q.as_str(), "__type") {
            if self.config.introspection {
                return QueryPlan::Introspection;
            } else {
                return QueryPlan::IntrospectionDisabled;
            }
        }
        let is_mutation = str_starts_with(q.as_str(), "mutation");
        let target = if is_mutation {
            match mutation_type {
                Some(m) => owned(m),
                None => String::new(),
            }
        } else {
            owned(query_type)
        };
        match extract_field_name(q.as_str()) {
            Some(field_name) => QueryPlan::Resolve { target, field_name },
            None => QueryPlan::Unparsable,
        }
    }

    /// Which way a request goes: only paths under the endpoint are taken; GET
    /// serves the playground when enabled, POST carries a query, anything else
    /// is refused.
    pub fn route(&self, method: &str, path: &str) -> (res: GraphQLRoute)
        ensures
            res == if !is_prefix(self.config.path@, path@) {
                GraphQLRoute::Pass
            } else if method@ == "GET"@ && self.config.playground {
                GraphQLRoute::Playground
            } else if method@ == "POST"@ {
                GraphQLRoute::Query
            } else {
                GraphQLRoute::MethodNotAllowed
            },
    {
        if !str_starts_with(path, self.config.path.as_str()) {
            GraphQLRoute::Pass
        } else if str_eq(method, "GET") && self.config.playground {
            GraphQLRoute::Playground
        } else if str_eq(method, "POST") {
            GraphQLRoute::Query
        } else {
            GraphQLRoute::MethodNotAllowed
        }
    }

    /// The message for a query with no registered resolver.
    pub fn no_resolver_error(target: &str, field_name: &str) -> (res: String)
        ensures
            res@ == no_resolver_message(target@, field_name@),
    {
        let mut s = String::from_str("No resolver found for ");
        s.append(target);
        s.append(".");
        s.append(field_name);
        s
    }

    /// The playground page, pointed at the endpoint.
    pub fn playground_html(&self) -> (res: String)
        ensures
            res@ == playground_head() + self.config.path@ + playground_tail(),
    {
        let mut s = String::from_str(PLAYGROUND_HEAD);
        s.append(self.config.path.as_str());
        s.append(PLAYGROUND_TAIL);
        s
    }

    /// Whether this endpoint answers a path that no route matches.
    pub fn serves_unrouted(&self, path: &str) -> (res: bool)
        ensures
            res == (path@ == self.config.path@),
    {
        str_eq(path, self.config.path.as_str())
    }

    /// Runs before most middleware.
    pub fn priority(&self) -> (res: i32)
        ensures
            res == -100,
    {
        -100
    }

    /// The middleware's name.
    pub fn name(&self) -> (res: &'static str)
        ensures
            res@ == "graphql"@,
    {
        "graphql"
    }
}

/// The playground page up to the endpoint.
pub const PLAYGROUND_HEAD: &'static str = "<!DOCTYPE html>\n<html>\n<head>\n    <meta charset=utf-8/>\n    <meta name=\"viewport\" content=\"user-scalable=no, initial-scale=1.0, minimum-scale=1.0, maximum-scale=1.0, minimal-ui\">\n    <title>GraphQL Playground</title>\n    <link rel=\"stylesheet\" href=\"//cdn.jsdelivr.net/npm/graphql-playground-react/build/static/css/index.css\" />\n    <link rel=\"shortcut icon\" href=\"//cdn.jsdelivr.net/npm/graphql-playground-react/build/favicon.png\" />\n    <script src=\"//cdn.jsdelivr.net/npm/graphql-playground-react/build/static/js/middleware.js\"></script>\n</head>\n<body>\n    <div id=\"root\">\n        <style>\n            body {\n                background-color: rgb(23, 42, 58);\n                font-family: Open Sans, sans-serif;\n                height: 90vh;\n            }\n            #root {\n                height: 100%;\n                width: 100%;\n                display: flex;\n                align-items: center;\n                justify-content: center;\n            }\n            .loading {\n                font-size: 32px;\n                font-weight: 200;\n                color: rgba(255, 255, 255, .6);\n                margin-left: 28px;\n            }\n        </style>\n        <span class=\"loading\">Loading GraphQL Playground...</span>\n    </div>\n    <script>\n        window.addEventListener('load', function (event) {\n            GraphQLPlayground.init(document.getElementById('root'), {\n                endpoint: '";

/// The playground page after the endpoint.
pub const PLAYGROUND_TAIL: &'static str = "',\n                settings: {\n                    'request.credentials': 'same-origin',\n                }\n            })\n        })\n    </script>\n</body>\n</html>";

/// The playground page up to the endpoint.
pub open spec fn playground_head() -> Seq<char> {
    PLAYGROUND_HEAD@
}

/// The playground page after the endpoint.
pub open spec fn playground_tail() -> Seq<char> {
    PLAYGROUND_TAIL@
}

// ============================================================================
// Requests, responses, errors
// ============================================================================

/// A GraphQL request.
pub struct GraphQLRequest {
    pub query: String,
    pub operation_name: Option<String>,
    pub variables: Option<StrMap<JsonValue>>,
}

/// A GraphQL error.
pub struct GraphQLError {
    pub message: String,
    pub locations: Option<Vec<GraphQLLocation>>,
    pub path: Option<Vec<JsonValue>>,
    pub extensions: Option<StrMap<JsonValue>>,
}

impl GraphQLError {
    /// An error with a message only.
    pub fn new(message: &str) -> (res: Self)
        ensures
            res.message@ == message@,
            res.locations is None,
            res.path is None,
            res.extensions is None,
    {
        GraphQLError { message: owned(message), locations: None, path: None, extensions: None }
    }

    /// Set the location (replacing any earlier one).
    pub fn with_location(self, line: u32, column: u32) -> (res: Self)
        ensures
            res.locations matches Some(l) && l@ == seq![GraphQLLocation { line, column }],
            res.message == self.message,
            res.path == self.path,
            res.extensions == self.extensions,
    {
        let mut e = self;
        e.locations = Some(vec![GraphQLLocation { line, column }]);
        assert(e.locations->0@ =~= seq![GraphQLLocation { line, column }]);
        e
    }

    /// Set the path.
    pub fn with_path(self, path: Vec<JsonValue>) -> (res: Self)
        ensures
            res.path == Some(path),
            res.message == self.message,
            res.locations == self.locations,
            res.extensions == self.extensions,
    {
        let mut e = self;
        e.path = Some(path);
        e
    }

    /// Add an extension entry.
    pub fn with_extension(self, key: &str, value: JsonValue) -> (res: Self)
        requires
            self.extensions matches Some(m) ==> m.wf(),
        ensures
            res.extensions matches Some(m) && m.wf() && m.to_map() == match self.extensions {
                Some(old) => old.to_map(),
                None => Map::<Seq<char>, JsonValue>::empty(),
            }.insert(key@, value),
            res.message == self.message,
            res.locations == self.locations,
            res.path == self.path,
    {
        let mut e = self;
        let mut m = match e.extensions {
            Some(m) => m,
            None => StrMap::new(),
        };
        m.insert(owned(key), value);
        e.extensions = Some(m);
        e
    }
}

/// A GraphQL response: data, or errors.
pub struct GraphQLResponse {
    pub data: Option<JsonValue>,
    pub errors: Vec<GraphQLError>,
}

impl GraphQLResponse {
    /// A response with data and no errors.
    pub fn data(data: JsonValue) -> (res: Self)
        ensures
            res.data == Some(data),
            res.errors@.len() == 0,
    {
        GraphQLResponse { data: Some(data), errors: Vec::new() }
    }

    /// A response with one error.
    pub fn error(error: GraphQLError) -> (res: Self)
        ensures
            res.data is None,
            res.errors@ == seq![error],
    {
        let v = vec![error];
        assert(v@ =~= seq![v@[0]]);
        GraphQLResponse { data: None, errors: v }
    }

    /// A response with errors.
    pub fn errors(errors: Vec<GraphQLError>) -> (res: Self)
        ensures
            res.data is None,
            res.errors == errors,
    {
        GraphQLResponse { data: None, errors }
    }
}

// ============================================================================
// Schema
// ============================================================================

/// An argument of a field.
pub struct ArgumentDef {
    pub name: String,
    pub arg_type: String,
    pub default_value: Option<JsonValue>,
    pub description: Option<String>,
}

/// A field of a type.
pub struct FieldDef {
    pub name: String,
    pub field_type: String,
    pub description: Option<String>,
    pub arguments: Vec<ArgumentDef>,
}

/// A type of the schema.
pub struct TypeDef {
    pub name: String,
    pub kind: GraphQLType,
    pub description: Option<String>,
    pub fields: Vec<FieldDef>,
}

/// A GraphQL schema.
pub struct GraphQLSchema {
    pub query_type: String,
    pub mutation_type: Option<String>,
    pub subscription_type: Option<String>,
    /// The types by name, in the order they were first added.
    pub types: StrMap<TypeDef>,
}

impl GraphQLSchema {
    pub open spec fn wf(&self) -> bool {
        self.types.wf()
    }

    /// A schema whose query type is `Query`, with no other root types and no
    /// types.
    pub fn new() -> (res: Self)
        ensures
            res.wf(),
            res.query_type@ == "Query"@,
            res.mutation_type is None,
            res.subscription_type is None,
            res.types.seq().len() == 0,
    {
        GraphQLSchema { query_type: String::from_str("Query"), mutation_type: None, subscription_type: None, types: StrMap::new() }
    }

    /// Set the query type.
    pub fn with_query_type(self, name: &str) -> (res: Self)
        ensures
            res.query_type@ == name@,
            res.mutation_type == self.mutation_type,
            res.subscription_type == self.subscription_type,
            res.types == self.types,
    {
        let mut s = self;
        s.query_type = owned(name);
        s
    }

    /// Set the mutation type.
    pub fn with_mutation_type(self, name: &str) -> (res: Self)
        ensures
            res.mutation_type matches Some(m) && m@ == name@,
            res.query_type == self.query_type,
            res.subscription_type == self.subscription_type,
            res.types == self.types,
    {
        let mut s = self;
        s.mutation_type = Some(owned(name));
        s
    }

    /// Add a type under its name (replacing one of the same name).
    pub fn add_type(self, type_def: TypeDef) -> (res: Self)
        requires
            self.wf(),
        ensures
            res.wf(),
            res.types.to_map() == self.types.to_map().insert(type_def.name@, type_def),
            res.query_type == self.query_type,
            res.mutation_type == self.mutation_type,
            res.subscription_type == self.subscription_type,
    {
        let mut s = self;
        let key = type_def.name.clone();
        s.types.insert(key, type_def);
        s
    }
}

impl Default for GraphQLSchema {
    fn default() -> (res: Self)
        ensures
            res.wf(),
            res.query_type@ == "Query"@,
            res.types.seq().len() == 0,
    {
        GraphQLSchema::new()
    }
}

/// What a resolver sees.
pub struct ResolverContext {
    pub parent: Option<JsonValue>,
    pub arguments: StrMap<JsonValue>,
    pub variables: StrMap<JsonValue>,
    pub request: Request,
}

impl ResolverContext {
    pub open spec fn wf(&self) -> bool {
        self.arguments.wf() && self.variables.wf()
    }

    /// A context for a request, with no parent, arguments or variables.
    pub fn new(request: Request) -> (res: Self)
        ensures
            res.wf(),
            res.parent is None,
            res.arguments.seq().len() == 0,
            res.variables.seq().len() == 0,
            res.request == request,
    {
        ResolverContext { parent: None, arguments: StrMap::new(), variables: StrMap::new(), request }
    }

    /// Set the parent value.
    pub fn with_parent(self, parent: JsonValue) -> (res: Self)
        ensures
            res == (ResolverContext { parent: Some(parent), ..self }),
    {
        let mut c = self;
        c.parent = Some(parent);
        c
    }

    /// Set the arguments.
    pub fn with_arguments(self, args: StrMap<JsonValue>) -> (res: Self)
        ensures
            res == (ResolverContext { arguments: args, ..self }),
    {
        let mut c = self;
        c.arguments = args;
        c
    }

    /// Set the variables.
    pub fn with_variables(self, vars: StrMap<JsonValue>) -> (res: Self)
        ensures
            res == (ResolverContext { variables: vars, ..self }),
    {
        let mut c = self;
        c.variables = vars;
        c
    }

    /// The argument `name`.
    pub fn arg(&self, name: &str) -> (res: Option<&JsonValue>)
        requires
            self.wf(),
        ensures
            res matches Some(v) ==> self.arguments.to_map().dom().contains(name@) && *v == self.arguments.to_map()[name@],
            res is None ==> !self.arguments.to_map().dom().contains(name@),
    {
        self.arguments.get(name)
    }

    /// The variable `name`.
    pub fn var(&self, name: &str) -> (res: Option<&JsonValue>)
        requires
            self.wf(),
        ensures
            res matches Some(v) ==> self.variables.to_map().dom().contains(name@) && *v == self.variables.to_map()[name@],
            res is None ==> !self.variables.to_map().dom().contains(name@),
    {
        self.variables.get(name)
    }
}

// ============================================================================
// Introspection
// ============================================================================

/// `v` is the object `{"name": n}`.
pub open spec fn is_name_object(v: JsonValue, n: Seq<char>) -> bool {
    v matches JsonValue::Object(f) && f@.len() == 1 && f@[0].0@ == "name"@ && (f@[0].1 matches JsonValue::Str(s) && s@ == n)
}

/// `v` is a string, or null for nothing.
pub open spec fn is_opt_string(v: JsonValue, o: Option<String>) -> bool {
    match o {
        Some(s) => v matches JsonValue::Str(x) && x@ == s@,
        None => v is Null,
    }
}

/// `v` describes a field: `{"name", "type": {"name"}, "description"}`.
pub open spec fn describes_field(v: JsonValue, f: FieldDef) -> bool {
    v matches JsonValue::Object(o) && o@.len() == 3
        && o@[0].0@ == "name"@ && (o@[0].1 matches JsonValue::Str(s) && s@ == f.name@)
        && o@[1].0@ == "type"@ && is_name_object(o@[1].1, f.field_type@)
        && o@[2].0@ == "description"@ && is_opt_string(o@[2].1, f.description)
}

/// `v` describes a type: `{"name", "kind", "description", "fields"}`.
pub open spec fn describes_type(v: JsonValue, t: TypeDef) -> bool {
    v matches JsonValue::Object(o) && o@.len() == 4
        && o@[0].0@ == "name"@ && (o@[0].1 matches JsonValue::Str(s) && s@ == t.name@)
        && o@[1].0@ == "kind"@ && (o@[1].1 matches JsonValue::Str(k) && k@ == kind_text(t.kind))
        && o@[2].0@ == "description"@ && is_opt_string(o@[2].1, t.description)
        && o@[3].0@ == "fields"@ && (o@[3].1 matches JsonValue::Array(fs) && fs@.len() == t.fields@.len()
            && forall|i: int| 0 <= i < fs@.len() ==> describes_field(#[trigger] fs@[i], t.fields@[i]))
}

/// The introspection name of a kind.
pub open spec fn kind_text(k: GraphQLType) -> Seq<char> {
    match k {
        GraphQLType::Scalar => "SCALAR"@,
        GraphQLType::Object => "OBJECT"@,
        GraphQLType::Interface => "INTERFACE"@,
        GraphQLType::Union => "UNION"@,
        GraphQLType::Enum => "ENUM"@,
        GraphQLType::InputObject => "INPUTOBJECT"@,
        GraphQLType::List => "LIST"@,
        GraphQLType::NonNull => "NONNULL"@,
    }
}

/// `v` is `{"name": n}` for a root type, or null without one.
pub open spec fn is_opt_name_object(v: JsonValue, o: Option<String>) -> bool {
    match o {
        Some(n) => is_name_object(v, n@),
        None => v is Null,
    }
}

/// `v` is the introspection answer for a schema: `{"__schema": {"queryType",
/// "mutationType", "subscriptionType", "types"}}` with the types in order.
pub open spec fn describes_schema(v: JsonValue, s: GraphQLSchema) -> bool {
    v matches JsonValue::Object(top) && top@.len() == 1 && top@[0].0@ == "__schema"@
        && (top@[0].1 matches JsonValue::Object(o) && o@.len() == 4
            && o@[0].0@ == "queryType"@ && is_name_object(o@[0].1, s.query_type@)
            && o@[1].0@ == "mutationType"@ && is_opt_name_object(o@[1].1, s.mutation_type)
            && o@[2].0@ == "subscriptionType"@ && is_opt_name_object(o@[2].1, s.subscription_type)
            && o@[3].0@ == "types"@ && (o@[3].1 matches JsonValue::Array(ts) && ts@.len() == s.types.seq().len()
                && forall|i: int| 0 <= i < ts@.len() ==> describes_type(#[trigger] ts@[i], s.types.seq()[i].1)))
}

/// `{"name": n}`.
fn name_object(n: &String) -> (res: JsonValue)
    ensures
        is_name_object(res, n@),
{
    JsonValue::Object(vec![(String::from_str("name"), JsonValue::Str(n.clone()))])
}

/// A string, or null.
fn opt_string(o: &Option<String>) -> (res: JsonValue)
    ensures
        is_opt_string(res, *o),
{
    match o {
        Some(s) => JsonValue::Str(s.clone()),
        None => JsonValue::Null,
    }
}

/// The description of a field.
fn field_json(f: &FieldDef) -> (res: JsonValue)
    ensures
        describes_field(res, *f),
{
    JsonValue::Object(vec![
        (String::from_str("name"), JsonValue::Str(f.name.clone())),
        (String::from_str("type"), name_object(&f.field_type)),
        (String::from_str("description"), opt_string(&f.description)),
    ])
}

/// The description of a type.
fn type_json(t: &TypeDef) -> (res: JsonValue)
    ensures
        describes_type(res, *t),
{
    let mut fields: Vec<JsonValue> = Vec::new();
    let mut i: usize = 0;
    while i < t.fields.len()
        invariant
            i <= t.fields@.len(),
            fields@.len() == i,
            forall|k: int| 0 <= k < i ==> describes_field(#[trigger] fields@[k], t.fields@[k]),
        decreases t.fields.len() - i,
    {
        fields.push(field_json(&t.fields[i]));
        i = i + 1;
    }
    let kind = String::from_str(t.kind.kind_name());
    JsonValue::Object(vec![
        (String::from_str("name"), JsonValue::Str(t.name.clone())),
        (String::from_str("kind"), JsonValue::Str(kind)),
        (String::from_str("description"), opt_string(&t.description)),
        (String::from_str("fields"), JsonValue::Array(fields)),
    ])
}

/// The root type as `{"name": n}`, or null.
fn opt_name_object(o: &Option<String>) -> (res: JsonValue)
    ensures
        is_opt_name_object(res, *o),
{
    match o {
        Some(n) => name_object(n),
        None => JsonValue::Null,
    }
}

/// The answer to an introspection query: the schema's root types and its
/// types with their fields.
pub fn handle_introspection(schema: &GraphQLSchema) -> (res: GraphQLResponse)
    ensures
        res.errors@.len() == 0,
        res.data matches Some(d) && describes_schema(d, *schema),
{
    let mut types: Vec<JsonValue> = Vec::new();
    let mut i: usize = 0;
    while i < schema.types.entries.len()
        invariant
            i <= schema.types.seq().len(),
            types@.len() == i,
            forall|k: int| 0 <= k < i ==> describes_type(#[trigger] types@[k], schema.types.seq()[k].1),
        decreases schema.types.entries.len() - i,
    {
        types.push(type_json(&schema.types.entries[i].1));
        i = i + 1;
    }
    let inner = JsonValue::Object(vec![
        (String::from_str("queryType"), name_object(&schema.query_type)),
        (String::from_str("mutationType"), opt_name_object(&schema.mutation_type)),
        (String::from_str("subscriptionType"), opt_name_object(&schema.subscription_type)),
        (String::from_str("types"), JsonValue::Array(types)),
    ]);
    GraphQLResponse::data(JsonValue::Object(vec![(String::from_str("__schema"), inner)]))
}

} // verus!
