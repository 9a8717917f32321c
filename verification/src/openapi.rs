//! OpenAPI 3.0 documents built from registered routes, with the Swagger UI
//! and ReDoc pages that display them.
use vstd::prelude::*;
use vstd::string::*;
use crate::strmap::{StrMap, keys_of, lemma_map_of_at, seq_insert_all, unique_keys};
use crate::text::{chars_of, owned, push_char, str_eq, strip_char_both, to_lowercase, unicode_lowercase, views};

verus! {

// ============================================================================
// Document types
// ============================================================================

/// API metadata.
pub struct Info {
    pub title: String,
    pub description: Option<String>,
    pub version: String,
    pub contact: Option<Contact>,
    pub license: Option<License>,
}

/// Contact information.
pub struct Contact {
    pub name: Option<String>,
    pub url: Option<String>,
    pub email: Option<String>,
}

/// License information.
pub struct License {
    pub name: String,
    pub url: Option<String>,
}

/// Server information.
pub struct Server {
    pub url: String,
    pub description: Option<String>,
}

/// Security scheme definition.
pub struct SecurityScheme {
    pub scheme_type: String,
    pub scheme: Option<String>,
    pub bearer_format: Option<String>,
    pub name: Option<String>,
    pub location: Option<String>,
}

/// Tag for grouping operations.
pub struct Tag {
    pub name: String,
    pub description: Option<String>,
}

/// The schema of a value (the generator only ever names a type).
pub struct Schema {
    pub schema_type: Option<String>,
    pub format: Option<String>,
    pub reference: Option<String>,
    pub required: Option<Vec<String>>,
}

/// Parameter definition.
pub struct Parameter {
    pub name: String,
    /// path, query, header or cookie
    pub location: String,
    pub description: Option<String>,
    pub required: Option<bool>,
    pub schema: Option<Schema>,
}

/// Media type definition.
pub struct MediaType {
    pub schema: Option<Schema>,
}

/// Request body definition.
pub struct RequestBody {
    pub description: Option<String>,
    pub content: StrMap<MediaType>,
    pub required: Option<bool>,
}

/// Response definition.
pub struct ApiResponse {
    pub description: String,
    pub content: Option<StrMap<MediaType>>,
}

/// HTTP operation.
pub struct Operation {
    pub summary: Option<String>,
    pub description: Option<String>,
    pub operation_id: Option<String>,
    pub tags: Option<Vec<String>>,
    pub parameters: Option<Vec<Parameter>>,
    pub request_body: Option<RequestBody>,
    pub responses: StrMap<ApiResponse>,
    pub security: Option<Vec<StrMap<Vec<String>>>>,
    pub deprecated: Option<bool>,
}

/// Path item containing operations.
pub struct PathItem {
    pub get: Option<Operation>,
    pub post: Option<Operation>,
    pub put: Option<Operation>,
    pub delete: Option<Operation>,
    pub patch: Option<Operation>,
    pub options: Option<Operation>,
    pub head: Option<Operation>,
}

/// Components object for reusable definitions.
pub struct Components {
    pub schemas: Option<StrMap<Schema>>,
    pub security_schemes: Option<StrMap<SecurityScheme>>,
}

/// OpenAPI 3.0 specification root object.
pub struct OpenAPISpec {
    pub openapi: String,
    pub info: Info,
    pub servers: Option<Vec<Server>>,
    pub paths: StrMap<PathItem>,
    pub components: Option<Components>,
    pub tags: Option<Vec<Tag>>,
}

// ============================================================================
// Path parameters and operation ids
// ============================================================================

/// The names in braces in a route path, left to right: each `{` starts a
/// name that runs to the next `}` and holds at least one character.
pub open spec fn path_params(s: Seq<char>) -> Seq<Seq<char>>
    decreases s.len(),
{
    if s.len() == 0 {
        Seq::empty()
    } else if s[0] == '{' {
        match crate::text::first_index_of(s.drop_first(), '}') {
            Some(i) => if i > 0 {
                proof {
                    crate::text::lemma_first_index_bounds(s.drop_first(), '}');
                }
                seq![s.subrange(1, i + 1)] + path_params(s.subrange(i + 2, s.len() as int))
            } else {
                path_params(s.drop_first())
            },
            None => Seq::empty(),
        }
    } else {
        path_params(s.drop_first())
    }
}

/// The names of the path parameters of a route.
pub fn path_param_names(path: &str) -> (res: Vec<String>)
    ensures
        views(res@) == path_params(path@),
{
    let v = chars_of(path);
    let mut out: Vec<String> = Vec::new();
    let mut i: usize = 0;
    assert(v@.subrange(0, v@.len() as int) =~= v@);
    while i < v.len()
        invariant
            v@ == path@,
            i <= v@.len(),
            path_params(path@) == views(out@) + path_params(v@.subrange(i as int, v@.len() as int)),
        decreases v.len() - i,
    {
        let ghost rest = v@.subrange(i as int, v@.len() as int);
        assert(rest[0] == v@[i as int]);
        if v[i] == '{' {
            let mut j = i + 1;
            while j < v.len() && v[j] != '}'
                invariant
                    i < j <= v@.len(),
                    v@ == path@,
                    forall|k: int| i < k < j ==> v@[k] != '}',
                decreases v.len() - j,
            {
                j = j + 1;
            }
            proof {
                let tail = rest.drop_first();
                assert(tail =~= v@.subrange(i as int + 1, v@.len() as int));
                if j < v.len() {
                    assert forall|k: int| 0 <= k < j - i - 1 implies tail[k] != '}' by {
                        assert(tail[k] == v@[i + 1 + k]);
                    }
                    assert(tail[j - i - 1] == '}');
                    crate::text::lemma_first_index_is(tail, '}', j - i - 1);
                } else {
                    assert forall|k: int| 0 <= k < tail.len() implies tail[k] != '}' by {
                        assert(tail[k] == v@[i + 1 + k]);
                    }
                    crate::text::lemma_first_index_none_if(tail, '}');
                }
            }
            if j == v.len() {
                assert(path_params(rest) =~= Seq::<Seq<char>>::empty());
                assert(views(out@) + Seq::<Seq<char>>::empty() =~= views(out@));
                proof {
                    assert(v@.subrange(v@.len() as int, v@.len() as int) =~= Seq::<char>::empty());
                }
                i = j;
            } else if j == i + 1 {
                assert(rest.drop_first() =~= v@.subrange(i as int + 1, v@.len() as int));
                i = i + 1;
            } else {
                let name = crate::text::string_of_range(&v, i + 1, j);
                let ghost before = views(out@);
                out.push(name);
                proof {
                    assert(rest.subrange(1, (j - i) as int) =~= v@.subrange(i as int + 1, j as int));
                    assert(rest.subrange((j - i) as int + 1, rest.len() as int) =~= v@.subrange(j as int + 1, v@.len() as int));
                    assert(views(out@) =~= before.push(name@));
                    assert(before + (seq![name@] + path_params(v@.subrange(j as int + 1, v@.len() as int)))
                        =~= views(out@) + path_params(v@.subrange(j as int + 1, v@.len() as int)));
                }
                i = j + 1;
            }
        } else {
            assert(rest.drop_first() =~= v@.subrange(i as int + 1, v@.len() as int));
            i = i + 1;
        }
    }
    assert(v@.subrange(v@.len() as int, v@.len() as int) =~= Seq::<char>::empty());
    assert(views(out@) + Seq::<Seq<char>>::empty() =~= views(out@));
    out
}

/// A string schema.
fn string_schema() -> (res: Schema)
    ensures
        is_string_schema(res),
{
    Schema { schema_type: Some(String::from_str("string")), format: None, reference: None, required: None }
}

/// An object schema.
fn object_schema() -> (res: Schema)
    ensures
        is_object_schema(res),
{
    Schema { schema_type: Some(String::from_str("object")), format: None, reference: None, required: None }
}

/// A string schema and nothing more.
pub open spec fn is_string_schema(s: Schema) -> bool {
    &&& s.schema_type matches Some(t) && t@ == "string"@
    &&& s.format is None
    &&& s.reference is None
    &&& s.required is None
}

/// An object schema and nothing more.
pub open spec fn is_object_schema(s: Schema) -> bool {
    &&& s.schema_type matches Some(t) && t@ == "object"@
    &&& s.format is None
    &&& s.reference is None
    &&& s.required is None
}

/// `ps` are the path parameters of `path`: one required string parameter
/// per name in braces, in order.
pub open spec fn path_parameters(ps: Seq<Parameter>, path: Seq<char>) -> bool {
    &&& ps.len() == path_params(path).len()
    &&& forall|i: int| 0 <= i < ps.len() ==> {
        &&& #[trigger] ps[i].name@ == path_params(path)[i]
        &&& ps[i].location@ == "path"@
        &&& ps[i].description matches Some(d) && d@ == "Path parameter: "@ + path_params(path)[i]
        &&& ps[i].required == Some(true)
        &&& ps[i].schema matches Some(s) && is_string_schema(s)
    }
}

/// The path parameters of a route: required strings, one per name in braces.
pub fn extract_path_params(path: &str) -> (res: Vec<Parameter>)
    ensures
        path_parameters(res@, path@),
{
    let names = path_param_names(path);
    let mut out: Vec<Parameter> = Vec::new();
    let mut i: usize = 0;
    while i < names.len()
        invariant
            views(names@) == path_params(path@),
            i <= names@.len(),
            out@.len() == i,
            forall|k: int| 0 <= k < i ==> {
                &&& #[trigger] out@[k].name@ == path_params(path@)[k]
                &&& out@[k].location@ == "path"@
                &&& out@[k].description matches Some(d) && d@ == "Path parameter: "@ + path_params(path@)[k]
                &&& out@[k].required == Some(true)
                &&& out@[k].schema matches Some(s) && is_string_schema(s)
            },
        decreases names.len() - i,
    {
        let mut d = String::from_str("Path parameter: ");
        d.append(names[i].as_str());
        assert(names@[i as int]@ == path_params(path@)[i as int]);
        out.push(Parameter {
            name: names[i].clone(),
            location: String::from_str("path"),
            description: Some(d),
            required: Some(true),
            schema: Some(string_schema()),
        });
        i = i + 1;
    }
    out
}

/// `s` with `/` turned into `_` and the braces dropped.
pub open spec fn clean_path(s: Seq<char>) -> Seq<char>
    decreases s.len(),
{
    if s.len() == 0 {
        s
    } else {
        let init = clean_path(s.drop_last());
        let c = s.last();
        if c == '/' {
            init.push('_')
        } else if c == '{' || c == '}' {
            init
        } else {
            init.push(c)
        }
    }
}

/// The operation id of a route: the lowercase method, `_`, and the path with
/// `/` as `_`, braces dropped, and leading and trailing `_` trimmed.
pub open spec fn operation_id(method: Seq<char>, path: Seq<char>) -> Seq<char> {
    unicode_lowercase(method) + "_"@ + strip_char_both(clean_path(path), '_')
}

/// Generate an operation id from method and path.
pub fn generate_operation_id(method: &str, path: &str) -> (res: String)
    ensures
        res@ == operation_id(method@, path@),
{
    let v = chars_of(path);
    let mut clean = String::new();
    let mut i: usize = 0;
    while i < v.len()
        invariant
            v@ == path@,
            i <= v@.len(),
            clean@ == clean_path(v@.subrange(0, i as int)),
        decreases v.len() - i,
    {
        assert(v@.subrange(0, i as int + 1).drop_last() =~= v@.subrange(0, i as int));
        let c = v[i];
        if c == '/' {
            push_char(&mut clean, '_');
        } else if c != '{' && c != '}' {
            push_char(&mut clean, c);
        }
        i = i + 1;
    }
    assert(v@.subrange(0, v@.len() as int) =~= v@);
    let trimmed = crate::text::trim_char_matches(clean.as_str(), '_');
    let mut out = to_lowercase(method);
    out.append("_");
    out.append(trimmed);
    out
}

// ============================================================================
// Generator
// ============================================================================

/// Route metadata for OpenAPI generation.
pub struct RouteMetadata {
    pub method: String,
    pub path: String,
    pub summary: Option<String>,
    pub description: Option<String>,
    pub tags: Vec<String>,
    pub deprecated: bool,
}

/// OpenAPI document generator.
pub struct OpenAPIGenerator {
    pub info: Info,
    pub routes: Vec<RouteMetadata>,
    pub servers: Vec<Server>,
    pub security_schemes: StrMap<SecurityScheme>,
}

/// The slot of a path item that a method fills, if any.
pub open spec fn method_slot(m: Seq<char>) -> Option<int> {
    if m == "GET"@ { Some(0) }
    else if m == "POST"@ { Some(1) }
    else if m == "PUT"@ { Some(2) }
    else if m == "DELETE"@ { Some(3) }
    else if m == "PATCH"@ { Some(4) }
    else if m == "OPTIONS"@ { Some(5) }
    else if m == "HEAD"@ { Some(6) }
    else { None }
}

impl PathItem {
    /// A path item without operations.
    pub fn empty() -> (res: Self)
        ensures
            res.get is None && res.post is None && res.put is None && res.delete is None,
            res.patch is None && res.options is None && res.head is None,
    {
        PathItem { get: None, post: None, put: None, delete: None, patch: None, options: None, head: None }
    }

    /// The operation in a slot.
    pub open spec fn slot(&self, i: int) -> Option<Operation> {
        if i == 0 { self.get }
        else if i == 1 { self.post }
        else if i == 2 { self.put }
        else if i == 3 { self.delete }
        else if i == 4 { self.patch }
        else if i == 5 { self.options }
        else { self.head }
    }
}

impl OpenAPIGenerator {
    pub open spec fn wf(&self) -> bool {
        self.security_schemes.wf()
    }

    /// A generator for an API: described as "<title> - Powered by Cello
    /// Framework", MIT licensed, with the development server, no routes and no
    /// security schemes.
    pub fn new(title: &str, version: &str) -> (res: Self)
        ensures
            res.wf(),
            res.info.title@ == title@,
            res.info.version@ == version@,
            res.info.description matches Some(d) && d@ == title@ + " - Powered by Cello Framework"@,
            res.info.contact is None,
            res.info.license matches Some(l) && l.name@ == "MIT"@ && l.url is None,
            res.routes@.len() == 0,
            res.servers@.len() == 1,
            res.servers@[0].url@ == "http://localhost:8000"@,
            res.servers@[0].description matches Some(d) && d@ == "Development server"@,
            res.security_schemes.seq().len() == 0,
    {
        let mut d = owned(title);
        d.append(" - Powered by Cello Framework");
        OpenAPIGenerator {
            info: Info {
                title: owned(title),
                description: Some(d),
                version: owned(version),
                contact: None,
                license: Some(License { name: String::from_str("MIT"), url: None }),
            },
            routes: Vec::new(),
            servers: vec![Server {
                url: String::from_str("http://localhost:8000"),
                description: Some(String::from_str("Development server")),
            }],
            security_schemes: StrMap::new(),
        }
    }

    /// Set the API description.
    pub fn description(self, desc: &str) -> (res: Self)
        ensures
            res.info.description matches Some(d) && d@ == desc@,
            res.info.title == self.info.title,
            res.routes == self.routes,
            res.servers == self.servers,
            res.security_schemes == self.security_schemes,
    {
        let mut g = self;
        g.info.description = Some(owned(desc));
        g
    }

    /// Add a server.
    pub fn add_server(self, url: &str, description: Option<&str>) -> (res: Self)
        ensures
            res.servers@.len() == self.servers@.len() + 1,
            res.servers@.drop_last() == self.servers@,
            res.servers@.last().url@ == url@,
            match description {
                Some(d) => res.servers@.last().description matches Some(x) && x@ == d@,
                None => res.servers@.last().description is None,
            },
            res.routes == self.routes,
            res.security_schemes == self.security_schemes,
    {
        let mut g = self;
        g.servers.push(Server {
            url: owned(url),
            description: match description {
                Some(d) => Some(owned(d)),
                None => None,
            },
        });
        assert(g.servers@.drop_last() =~= self.servers@);
        g
    }

    /// Add JWT bearer authentication as `bearerAuth`.
    pub fn add_jwt_auth(self) -> (res: Self)
        requires
            self.wf(),
        ensures
            res.wf(),
            res.security_schemes.to_map().dom() == self.security_schemes.to_map().dom().insert("bearerAuth"@),
            ({
                let s = res.security_schemes.to_map()["bearerAuth"@];
                &&& s.scheme_type@ == "http"@
                &&& s.scheme matches Some(x) && x@ == "bearer"@
                &&& s.bearer_format matches Some(x) && x@ == "JWT"@
                &&& s.name is None
                &&& s.location is None
            }),
            res.routes == self.routes,
            res.servers == self.servers,
    {
        let mut g = self;
        g.security_schemes.insert(String::from_str("bearerAuth"), SecurityScheme {
            scheme_type: String::from_str("http"),
            scheme: Some(String::from_str("bearer")),
            bearer_format: Some(String::from_str("JWT")),
            name: None,
            location: None,
        });
        g
    }

    /// Add API key authentication as `apiKey`.
    pub fn add_api_key_auth(self, name: &str, location: &str) -> (res: Self)
        requires
            self.wf(),
        ensures
            res.wf(),
            res.security_schemes.to_map().dom() == self.security_schemes.to_map().dom().insert("apiKey"@),
            ({
                let s = res.security_schemes.to_map()["apiKey"@];
                &&& s.scheme_type@ == "apiKey"@
                &&& s.scheme is None
                &&& s.bearer_format is None
                &&& s.name matches Some(x) && x@ == name@
                &&& s.location matches Some(x) && x@ == location@
            }),
            res.routes == self.routes,
            res.servers == self.servers,
    {
        let mut g = self;
        g.security_schemes.insert(String::from_str("apiKey"), SecurityScheme {
            scheme_type: String::from_str("apiKey"),
            scheme: None,
            bearer_format: None,
            name: Some(owned(name)),
            location: Some(owned(location)),
        });
        g
    }

    /// Register a route.
    pub fn register_route(&mut self, metadata: RouteMetadata)
        ensures
            final(self).routes@ == old(self).routes@.push(metadata),
            final(self).info == old(self).info,
            final(self).servers == old(self).servers,
            final(self).security_schemes == old(self).security_schemes,
    {
        self.routes.push(metadata);
    }
}


// ============================================================================
// Operations
// ============================================================================

/// Methods whose operations take a request body.
pub open spec fn takes_body(m: Seq<char>) -> bool {
    m == "POST"@ || m == "PUT"@ || m == "PATCH"@
}

/// A content map with one entry: JSON described by an object schema.
pub open spec fn is_json_object_content(c: StrMap<MediaType>) -> bool {
    &&& c.wf()
    &&& c.seq().len() == 1
    &&& c.seq()[0].0@ == "application/json"@
    &&& c.seq()[0].1.schema matches Some(s) && is_object_schema(s)
}

/// The request body of an operation that takes one: required JSON object.
pub open spec fn is_json_request_body(b: RequestBody) -> bool {
    &&& b.description matches Some(d) && d@ == "Request body"@
    &&& is_json_object_content(b.content)
    &&& b.required == Some(true)
}

/// The responses of every generated operation: `200`, a JSON object.
pub open spec fn is_default_responses(r: StrMap<ApiResponse>) -> bool {
    &&& r.wf()
    &&& r.seq().len() == 1
    &&& r.seq()[0].0@ == "200"@
    &&& r.seq()[0].1.description@ == "Successful response"@
    &&& r.seq()[0].1.content matches Some(c) && is_json_object_content(c)
}

/// `op` is the operation generated for route `r`.
pub open spec fn describes(op: Operation, r: RouteMetadata) -> bool {
    &&& op.summary == r.summary
    &&& op.description == r.description
    &&& op.operation_id matches Some(x) && x@ == operation_id(r.method@, r.path@)
    &&& if r.tags@.len() == 0 {
        op.tags is None
    } else {
        op.tags matches Some(t) && t@ == r.tags@
    }
    &&& if path_params(r.path@).len() == 0 {
        op.parameters is None
    } else {
        op.parameters matches Some(ps) && path_parameters(ps@, r.path@)
    }
    &&& if takes_body(r.method@) {
        op.request_body matches Some(b) && is_json_request_body(b)
    } else {
        op.request_body is None
    }
    &&& is_default_responses(op.responses)
    &&& op.security is None
    &&& op.deprecated == (if r.deprecated { Some(true) } else { None::<bool> })
}

/// `{"application/json": {"type": "object"}}`.
fn json_object_content() -> (res: StrMap<MediaType>)
    ensures
        is_json_object_content(res),
{
    let mut c: StrMap<MediaType> = StrMap::new();
    c.insert(String::from_str("application/json"), MediaType { schema: Some(object_schema()) });
    c
}

/// The operation generated for a route.
pub fn build_operation(route: &RouteMetadata) -> (res: Operation)
    ensures
        describes(res, *route),
{
    let params = extract_path_params(route.path.as_str());
    let m = route.method.as_str();
    let with_body = str_eq(m, "POST") || str_eq(m, "PUT") || str_eq(m, "PATCH");
    let mut responses: StrMap<ApiResponse> = StrMap::new();
    responses.insert(String::from_str("200"), ApiResponse {
        description: String::from_str("Successful response"),
        content: Some(json_object_content()),
    });
    let tags = if route.tags.len() == 0 {
        None
    } else {
        let t = route.tags.clone();
        assert(t@ =~= route.tags@);
        Some(t)
    };
    Operation {
        summary: route.summary.clone(),
        description: route.description.clone(),
        operation_id: Some(generate_operation_id(m, route.path.as_str())),
        tags,
        parameters: if params.len() == 0 { None } else { Some(params) },
        request_body: if with_body {
            Some(RequestBody {
                description: Some(String::from_str("Request body")),
                content: json_object_content(),
                required: Some(true),
            })
        } else {
            None
        },
        responses,
        security: None,
        deprecated: if route.deprecated { Some(true) } else { None },
    }
}

// ============================================================================
// Copies
// ============================================================================

impl Contact {
    /// An equal copy.
    pub fn copy(&self) -> (res: Self)
        ensures
            res == *self,
    {
        Contact { name: self.name.clone(), url: self.url.clone(), email: self.email.clone() }
    }
}

impl License {
    /// An equal copy.
    pub fn copy(&self) -> (res: Self)
        ensures
            res == *self,
    {
        License { name: self.name.clone(), url: self.url.clone() }
    }
}

impl Info {
    /// An equal copy.
    pub fn copy(&self) -> (res: Self)
        ensures
            res == *self,
    {
        Info {
            title: self.title.clone(),
            description: self.description.clone(),
            version: self.version.clone(),
            contact: match &self.contact {
                Some(c) => Some(c.copy()),
                None => None,
            },
            license: match &self.license {
                Some(l) => Some(l.copy()),
                None => None,
            },
        }
    }
}

impl Server {
    /// An equal copy.
    pub fn copy(&self) -> (res: Self)
        ensures
            res == *self,
    {
        Server { url: self.url.clone(), description: self.description.clone() }
    }
}

impl SecurityScheme {
    /// An equal copy.
    pub fn copy(&self) -> (res: Self)
        ensures
            res == *self,
    {
        SecurityScheme {
            scheme_type: self.scheme_type.clone(),
            scheme: self.scheme.clone(),
            bearer_format: self.bearer_format.clone(),
            name: self.name.clone(),
            location: self.location.clone(),
        }
    }
}

/// A copy of a list of servers.
fn copy_servers(v: &Vec<Server>) -> (res: Vec<Server>)
    ensures
        res@ == v@,
{
    let mut out: Vec<Server> = Vec::new();
    let mut i: usize = 0;
    while i < v.len()
        invariant
            i <= v@.len(),
            out@ == v@.subrange(0, i as int),
        decreases v.len() - i,
    {
        out.push(v[i].copy());
        i = i + 1;
        assert(out@ =~= v@.subrange(0, i as int));
    }
    assert(v@.subrange(0, v@.len() as int) =~= v@);
    out
}

/// A copy of a map of security schemes, entry for entry.
fn copy_schemes(m: &StrMap<SecurityScheme>) -> (res: StrMap<SecurityScheme>)
    ensures
        res.seq() == m.seq(),
{
    let mut out: Vec<(String, SecurityScheme)> = Vec::new();
    let mut i: usize = 0;
    while i < m.entries.len()
        invariant
            i <= m.seq().len(),
            out@ == m.seq().subrange(0, i as int),
        decreases m.entries.len() - i,
    {
        let e = &m.entries[i];
        out.push((e.0.clone(), e.1.copy()));
        i = i + 1;
        assert(out@ =~= m.seq().subrange(0, i as int));
    }
    assert(m.seq().subrange(0, m.seq().len() as int) =~= m.seq());
    StrMap { entries: out }
}

// ============================================================================
// Document generation
// ============================================================================

/// The paths of a list of routes, in order.
pub open spec fn route_paths(rs: Seq<RouteMetadata>) -> Seq<Seq<char>> {
    rs.map_values(|r: RouteMetadata| r.path@)
}

/// The index of the last route on path `p` whose method fills slot `k`.
pub open spec fn last_route(rs: Seq<RouteMetadata>, p: Seq<char>, k: int) -> Option<int>
    decreases rs.len(),
{
    if rs.len() == 0 {
        None
    } else if rs.last().path@ == p && method_slot(rs.last().method@) == Some(k) {
        Some(rs.len() - 1)
    } else {
        last_route(rs.drop_last(), p, k)
    }
}

/// A slot of a path item holds the operation of route `j` of `rs`, or is
/// empty when there is no such route.
pub open spec fn slot_holds(slot: Option<Operation>, j: Option<int>, rs: Seq<RouteMetadata>) -> bool {
    match j {
        Some(j) => slot matches Some(op) && describes(op, rs[j]),
        None => slot is None,
    }
}

/// The route `last_route` finds is on path `p` and within the list.
proof fn lemma_last_route_bounds(rs: Seq<RouteMetadata>, p: Seq<char>, k: int)
    ensures
        last_route(rs, p, k) matches Some(j) ==> 0 <= j < rs.len() && rs[j].path@ == p,
    decreases rs.len(),
{
    if rs.len() > 0 {
        lemma_last_route_bounds(rs.drop_last(), p, k);
    }
}

/// Adding strings in turn gives a sequence holding exactly those strings.
pub proof fn lemma_seq_insert_all_contains(items: Seq<Seq<char>>, p: Seq<char>)
    ensures
        seq_insert_all(Seq::empty(), items).contains(p) == items.contains(p),
    decreases items.len(),
{
    if items.len() > 0 {
        let init = items.drop_last();
        lemma_seq_insert_all_contains(init, p);
        let prev = seq_insert_all(Seq::empty(), init);
        if init.contains(p) {
            let j = choose|j: int| 0 <= j < init.len() && init[j] == p;
            assert(items[j] == p);
        }
        if items.contains(p) && p != items.last() {
            let j = choose|j: int| 0 <= j < items.len() && items[j] == p;
            assert(init[j] == p);
        }
        if !prev.contains(items.last()) {
            assert(prev.push(items.last()).last() == items.last());
            if prev.contains(p) {
                let j = choose|j: int| 0 <= j < prev.len() && prev[j] == p;
                assert(prev.push(items.last())[j] == p);
            }
            if prev.push(items.last()).contains(p) && p != items.last() {
                let j = choose|j: int| 0 <= j < prev.len() + 1 && prev.push(items.last())[j] == p;
                assert(prev[j] == p);
            }
        } else {
            if p == items.last() {
                assert(items[items.len() - 1] == p);
            }
        }
    }
}

impl PathItem {
    /// Put an operation in the slot of a method; other methods leave the item as it is.
    pub fn set_operation(&mut self, method: &str, op: Operation)
        ensures
            forall|k: int| 0 <= k < 7 ==> #[trigger] final(self).slot(k) == if method_slot(method@) == Some(k) {
                Some(op)
            } else {
                old(self).slot(k)
            },
    {
        if str_eq(method, "GET") {
            self.get = Some(op);
        } else if str_eq(method, "POST") {
            self.post = Some(op);
        } else if str_eq(method, "PUT") {
            self.put = Some(op);
        } else if str_eq(method, "DELETE") {
            self.delete = Some(op);
        } else if str_eq(method, "PATCH") {
            self.patch = Some(op);
        } else if str_eq(method, "OPTIONS") {
            self.options = Some(op);
        } else if str_eq(method, "HEAD") {
            self.head = Some(op);
        }
    }
}

impl OpenAPIGenerator {
    /// The document for the registered routes: one path item per distinct
    /// path, in order of first registration, whose slot for each method holds
    /// the operation of the last route registered for that path and method.
    pub fn generate(&self) -> (res: OpenAPISpec)
        requires
            self.wf(),
        ensures
            res.openapi@ == "3.0.3"@,
            res.info == self.info,
            res.servers matches Some(v) && v@ == self.servers@,
            res.tags is None,
            if self.security_schemes.seq().len() == 0 {
                res.components is None
            } else {
                res.components matches Some(c) && (c.schemas is None
                    && (c.security_schemes matches Some(m) && m.seq() == self.security_schemes.seq()))
            },
            res.paths.wf(),
            keys_of(res.paths.seq()) == seq_insert_all(Seq::empty(), route_paths(self.routes@)),
            forall|p: Seq<char>| #[trigger] res.paths.to_map().dom().contains(p) == route_paths(self.routes@).contains(p),
            forall|p: Seq<char>, k: int| #[trigger] res.paths.to_map().dom().contains(p) && 0 <= k < 7 ==>
                slot_holds(#[trigger] res.paths.to_map()[p].slot(k), last_route(self.routes@, p, k), self.routes@),
    {
        let ghost rs = self.routes@;
        let mut paths: StrMap<PathItem> = StrMap::new();
        let mut i: usize = 0;
        while i < self.routes.len()
            invariant
                rs == self.routes@,
                i <= rs.len(),
                paths.wf(),
                keys_of(paths.seq()) == seq_insert_all(Seq::empty(), route_paths(rs.take(i as int))),
                forall|a: int, k: int| 0 <= a < paths.seq().len() && 0 <= k < 7 ==>
                    slot_holds(#[trigger] paths.seq()[a].1.slot(k), last_route(rs.take(i as int), paths.seq()[a].0@, k), rs),
            decreases self.routes.len() - i,
        {
            let route = &self.routes[i];
            let op = build_operation(route);
            let ghost p = route.path@;
            let ghost s0 = paths.seq();
            let ghost before = rs.take(i as int);
            let ghost after = rs.take(i as int + 1);
            assert(after.drop_last() =~= before);
            assert(route_paths(after).drop_last() =~= route_paths(before));
            assert(route_paths(after).last() == p);
            assert(forall|q: Seq<char>, k: int| last_route(after, q, k) == if q == p && method_slot(route.method@) == Some(k) {
                Some(i as int)
            } else {
                last_route(before, q, k)
            });
            match paths.index_of(route.path.as_str()) {
                Some(a) => {
                    assert(keys_of(s0)[a as int] == p);
                    assert(seq_insert_all(Seq::empty(), route_paths(before)).contains(p));
                    let (key, mut item) = paths.entries.remove(a);
                    item.set_operation(route.method.as_str(), op);
                    paths.entries.insert(a, (key, item));
                    assert(paths.seq() =~= s0.update(a as int, (key, item)));
                    assert(keys_of(paths.seq()) =~= keys_of(s0));
                    assert forall|x: int, k: int| 0 <= x < paths.seq().len() && 0 <= k < 7 implies
                        slot_holds(#[trigger] paths.seq()[x].1.slot(k), last_route(after, paths.seq()[x].0@, k), rs) by {
                        if x != a as int {
                            assert(s0[x].0@ != s0[a as int].0@ || x == a as int);
                        }
                    }
                },
                None => {
                    assert(!keys_of(s0).contains(p)) by {
                        if keys_of(s0).contains(p) {
                            let j = choose|j: int| 0 <= j < keys_of(s0).len() && keys_of(s0)[j] == p;
                            assert(s0[j].0@ == p);
                        }
                    }
                    proof {
                        lemma_seq_insert_all_contains(route_paths(before), p);
                        assert forall|k: int| last_route(before, p, k) is None by {
                            lemma_last_route_bounds(before, p, k);
                            if let Some(j) = last_route(before, p, k) {
                                assert(route_paths(before)[j] == p);
                            }
                        }
                    }
                    let mut item = PathItem::empty();
                    item.set_operation(route.method.as_str(), op);
                    paths.entries.push((route.path.clone(), item));
                    assert(paths.seq() == s0.push((route.path, item)));
                    assert(keys_of(paths.seq()) =~= keys_of(s0).push(p));
                    assert(unique_keys(paths.seq())) by {
                        assert forall|x: int, y: int| 0 <= x < y < paths.seq().len() implies paths.seq()[x].0@ != paths.seq()[y].0@ by {
                            if y == s0.len() {
                                assert(keys_of(s0)[x] == s0[x].0@);
                            }
                        }
                    }
                    assert forall|x: int, k: int| 0 <= x < paths.seq().len() && 0 <= k < 7 implies
                        slot_holds(#[trigger] paths.seq()[x].1.slot(k), last_route(after, paths.seq()[x].0@, k), rs) by {
                        if x < s0.len() {
                            assert(keys_of(s0)[x] == s0[x].0@);
                        }
                    }
                },
            }
            i = i + 1;
        }
        assert(rs.take(rs.len() as int) =~= rs);
        proof {
            let sq = paths.seq();
            assert forall|p: Seq<char>| #[trigger] paths.to_map().dom().contains(p) == route_paths(rs).contains(p) by {
                lemma_seq_insert_all_contains(route_paths(rs), p);
                if paths.to_map().dom().contains(p) {
                    let j = choose|j: int| 0 <= j < sq.len() && sq[j].0@ == p;
                    assert(keys_of(sq)[j] == p);
                }
                if keys_of(sq).contains(p) {
                    let j = choose|j: int| 0 <= j < keys_of(sq).len() && keys_of(sq)[j] == p;
                    assert(sq[j].0@ == p);
                }
            }
            assert forall|p: Seq<char>, k: int| #[trigger] paths.to_map().dom().contains(p) && 0 <= k < 7 implies
                slot_holds(#[trigger] paths.to_map()[p].slot(k), last_route(rs, p, k), rs) by {
                let j = choose|j: int| 0 <= j < sq.len() && sq[j].0@ == p;
                lemma_map_of_at(sq, j);
            }
        }
        OpenAPISpec {
            openapi: String::from_str("3.0.3"),
            info: self.info.copy(),
            servers: Some(copy_servers(&self.servers)),
            paths,
            components: if self.security_schemes.len() == 0 {
                None
            } else {
                Some(Components { schemas: None, security_schemes: Some(copy_schemes(&self.security_schemes)) })
            },
            tags: None,
        }
    }
}

// ============================================================================
// Documentation pages
// ============================================================================

/// Swagger UI page, up to the title.
pub const SWAGGER_HEAD: &'static str = r#"<!DOCTYPE html>
<html lang="en">
<head>
    <meta charset="UTF-8">
    <meta name="viewport" content="width=device-width, initial-scale=1.0">
    <title>"#;

/// Swagger UI page, from the title to the document's URL.
pub const SWAGGER_MIDDLE: &'static str = r#" - Swagger UI</title>
    <link rel="stylesheet" href="https://unpkg.com/swagger-ui-dist@5.9.0/swagger-ui.css" />
    <style>
        body { margin: 0; padding: 0; }
        .swagger-ui .topbar { display: none; }
    </style>
</head>
<body>
    <div id="swagger-ui"></div>
    <script src="https://unpkg.com/swagger-ui-dist@5.9.0/swagger-ui-bundle.js"></script>
    <script>
        window.onload = () => {
            window.ui = SwaggerUIBundle({
                url: ""#;

/// Swagger UI page, after the document's URL.
pub const SWAGGER_TAIL: &'static str = r#"",
                dom_id: '#swagger-ui',
                deepLinking: true,
                presets: [SwaggerUIBundle.presets.apis, SwaggerUIBundle.SwaggerUIStandalonePreset],
                layout: "StandaloneLayout"
            });
        };
    </script>
</body>
</html>"#;

/// ReDoc page, up to the title.
pub const REDOC_HEAD: &'static str = r#"<!DOCTYPE html>
<html lang="en">
<head>
    <meta charset="UTF-8">
    <meta name="viewport" content="width=device-width, initial-scale=1.0">
    <title>"#;

/// ReDoc page, from the title to the document's URL.
pub const REDOC_MIDDLE: &'static str = r#" - API Documentation</title>
    <link href="https://fonts.googleapis.com/css?family=Montserrat:300,400,700|Roboto:300,400,700" rel="stylesheet">
    <style>body { margin: 0; padding: 0; }</style>
</head>
<body>
    <redoc spec-url=""#;

/// ReDoc page, after the document's URL.
pub const REDOC_TAIL: &'static str = r#""></redoc>
    <script src="https://cdn.redoc.ly/redoc/latest/bundles/redoc.standalone.js"></script>
</body>
</html>"#;

/// The Swagger UI page for a document URL and an API title.
pub open spec fn swagger_page(openapi_url: Seq<char>, title: Seq<char>) -> Seq<char> {
    SWAGGER_HEAD@ + title + SWAGGER_MIDDLE@ + openapi_url + SWAGGER_TAIL@
}

/// The ReDoc page for a document URL and an API title.
pub open spec fn redoc_page(openapi_url: Seq<char>, title: Seq<char>) -> Seq<char> {
    REDOC_HEAD@ + title + REDOC_MIDDLE@ + openapi_url + REDOC_TAIL@
}

/// Generate the Swagger UI HTML page.
pub fn swagger_ui_html(openapi_url: &str, title: &str) -> (res: String)
    ensures
        res@ == swagger_page(openapi_url@, title@),
{
    let mut out = String::from_str(SWAGGER_HEAD);
    out.append(title);
    out.append(SWAGGER_MIDDLE);
    out.append(openapi_url);
    out.append(SWAGGER_TAIL);
    out
}

/// Generate the ReDoc HTML page.
pub fn redoc_html(openapi_url: &str, title: &str) -> (res: String)
    ensures
        res@ == redoc_page(openapi_url@, title@),
{
    let mut out = String::from_str(REDOC_HEAD);
    out.append(title);
    out.append(REDOC_MIDDLE);
    out.append(openapi_url);
    out.append(REDOC_TAIL);
    out
}

} // verus!
