//! The parts of a request and a response that the middleware reads and writes.
use vstd::prelude::*;
use crate::strmap::StrMap;
use vstd::string::*;
use crate::text::{chars_of, find_char, first_index_of, owned, push_char, split_char, split_str, str_eq, str_trim, string_of_range, trim, views};

verus! {

/// Characters that are never kept in a header value.
pub open spec fn is_ctl(c: char) -> bool {
    c == '\r' || c == '\n' || c == '\0'
}

/// `s` without carriage returns, line feeds and NUL characters.
pub open spec fn strip_ctl(s: Seq<char>) -> Seq<char>
    decreases s.len(),
{
    if s.len() == 0 {
        s
    } else if is_ctl(s.last()) {
        strip_ctl(s.drop_last())
    } else {
        strip_ctl(s.drop_last()).push(s.last())
    }
}

/// Removes carriage returns, line feeds and NUL characters, so that a value
/// cannot start a header of its own.
pub fn sanitize_header_value(value: &str) -> (res: String)
    ensures
        res@ == strip_ctl(value@),
{
    let v = chars_of(value);
    let mut out = String::new();
    let mut i: usize = 0;
    while i < v.len()
        invariant
            v@ == value@,
            i <= v@.len(),
            out@ == strip_ctl(v@.subrange(0, i as int)),
        decreases v.len() - i,
    {
        let c = v[i];
        assert(v@.subrange(0, i as int + 1).drop_last() =~= v@.subrange(0, i as int));
        if c != '\r' && c != '\n' && c != '\0' {
            push_char(&mut out, c);
        }
        i = i + 1;
    }
    assert(v@.subrange(0, v@.len() as int) =~= v@);
    out
}

/// A member value of a flat JSON object.
pub enum JsonField {
    Str(String),
    Num(u64),
    StrList(Vec<String>),
}

/// A member value of a flat JSON object, as characters and numbers.
pub enum JsonFieldView {
    Str(Seq<char>),
    Num(u64),
    StrList(Seq<Seq<char>>),
}

/// The view of a member value.
pub open spec fn field_view(f: JsonField) -> JsonFieldView {
    match f {
        JsonField::Str(s) => JsonFieldView::Str(s@),
        JsonField::Num(n) => JsonFieldView::Num(n),
        JsonField::StrList(l) => JsonFieldView::StrList(views(l@)),
    }
}

/// The views of the members of a flat JSON object, in order.
pub open spec fn field_views(fields: Seq<(String, JsonField)>) -> Seq<(Seq<char>, JsonFieldView)> {
    fields.map_values(|e: (String, JsonField)| (e.0@, field_view(e.1)))
}

/// The name of the JSON text that `serde_json` writes for the object made of
/// these members, inserted in turn into a `serde_json::Map` (so a later member
/// replaces an earlier one of the same key, and the keys come out sorted).
pub uninterp spec fn json_object_text(fields: Seq<(Seq<char>, JsonFieldView)>) -> Seq<u8>;

/// `serde_json::to_vec` of the `serde_json::Value::Object` that holds these
/// members (strings, unsigned numbers, arrays of strings); serialising a
/// `Value` cannot fail.  The result is named by `json_object_text`.
#[verifier::external_body]
pub(crate) fn json_object_bytes(fields: &Vec<(String, JsonField)>) -> (res: Vec<u8>)
    ensures
        res@ == json_object_text(field_views(fields@)),
{
    let mut m = serde_json::Map::new();
    for (k, v) in fields.iter() {
        let value = match v {
            JsonField::Str(s) => serde_json::Value::from(s.as_str()),
            JsonField::Num(n) => serde_json::Value::from(*n),
            JsonField::StrList(l) => serde_json::Value::from(l.clone()),
        };
        m.insert(k.clone(), value);
    }
    serde_json::to_vec(&serde_json::Value::Object(m)).unwrap_or_default()
}

/// The members of an error body: `error` and `status`.
pub open spec fn error_fields(message: Seq<char>, status: u16) -> Seq<(Seq<char>, JsonFieldView)> {
    seq![("error"@, JsonFieldView::Str(message)), ("status"@, JsonFieldView::Num(status as u64))]
}

/// The JSON text of the error body `{"error": message, "status": status}`.
pub open spec fn error_json_of(message: Seq<char>, status: u16) -> Seq<u8> {
    json_object_text(error_fields(message, status))
}

/// The error body `{"error": message, "status": status}` as JSON.
fn error_json_body(message: &str, status: u16) -> (res: Vec<u8>)
    ensures
        res@ == error_json_of(message@, status),
{
    let fields = vec![
        (String::from_str("error"), JsonField::Str(owned(message))),
        (String::from_str("status"), JsonField::Num(status as u64)),
    ];
    assert(field_views(fields@) =~= error_fields(message@, status));
    json_object_bytes(&fields)
}

/// The value of the first cookie named `name` among `;`-separated pieces, each
/// trimmed and split at its first `=`.
pub open spec fn cookie_value(pieces: Seq<Seq<char>>, name: Seq<char>) -> Option<Seq<char>>
    decreases pieces.len(),
{
    if pieces.len() == 0 {
        None
    } else {
        let p = trim(pieces[0]);
        match first_index_of(p, '=') {
            Some(i) => if p.subrange(0, i) == name {
                Some(p.subrange(i + 1, p.len() as int))
            } else {
                cookie_value(pieces.drop_first(), name)
            },
            None => cookie_value(pieces.drop_first(), name),
        }
    }
}

/// The value of the first cookie named `name` in a `Cookie` header.
pub fn find_cookie(header: &str, name: &str) -> (res: Option<String>)
    ensures
        res matches Some(v) ==> cookie_value(split_char(header@, ';'), name@) == Some(v@),
        res is None ==> cookie_value(split_char(header@, ';'), name@) is None,
{
    let pieces = split_str(header, ';');
    let ghost ps = split_char(header@, ';');
    let mut i: usize = 0;
    assert(ps.subrange(0, ps.len() as int) =~= ps);
    while i < pieces.len()
        invariant
            views(pieces@) == ps,
            ps == split_char(header@, ';'),
            i <= pieces@.len(),
            cookie_value(ps, name@) == cookie_value(ps.subrange(i as int, ps.len() as int), name@),
        decreases pieces.len() - i,
    {
        let ghost rest = ps.subrange(i as int, ps.len() as int);
        assert(rest[0] == pieces@[i as int]@);
        assert(rest.drop_first() =~= ps.subrange(i + 1, ps.len() as int));
        let p = str_trim(pieces[i].as_str());
        let pv = chars_of(p.as_str());
        match find_char(&pv, '=') {
            Some(k) => {
                let n = pv.len();
                assert(k < n);
                let key = string_of_range(&pv, 0, k);
                if str_eq(key.as_str(), name) {
                    let value = string_of_range(&pv, k + 1, n);
                    proof {
                        assert(trim(rest[0]) == pv@);
                        assert(pv@.subrange(0, k as int) == key@);
                        assert(cookie_value(rest, name@) == Some(value@));
                    }
                    return Some(value);
                }
            },
            None => {},
        }
        i = i + 1;
    }
    None
}

/// What kind of body a response has.
pub enum ResponseBody {
    /// Standard bytes body
    Bytes(Vec<u8>),
    /// Empty body
    Empty,
    /// Marker for streaming (the stream is handled separately)
    Streaming,
    /// Marker for a file body (its path is in the headers)
    File(String),
    /// Marker for chunked transfer
    Chunked,
}

/// An HTTP response as the middleware sees it.
pub struct Response {
    pub status: u16,
    pub headers: StrMap<String>,
    pub body: Vec<u8>,
    pub content_type: String,
    pub body_type: ResponseBody,
}

impl Response {
    pub open spec fn wf(&self) -> bool {
        self.headers.wf()
    }

    /// The headers, by name, as character sequences.
    pub open spec fn header_map(&self) -> Map<Seq<char>, Seq<char>> {
        self.headers.to_map().map_values(|v: String| v@)
    }

    /// An empty `text/plain` response with the given status.
    pub fn new(status: u16) -> (res: Self)
        ensures
            res.wf(),
            res.status == status,
            res.header_map() == Map::<Seq<char>, Seq<char>>::empty(),
            res.headers.seq().len() == 0,
            res.body@.len() == 0,
            res.content_type@ == "text/plain"@,
            res.body_type is Empty,
    {
        let res = Response {
            status,
            headers: StrMap::new(),
            body: Vec::new(),
            content_type: owned("text/plain"),
            body_type: ResponseBody::Empty,
        };
        assert(res.header_map() =~= Map::<Seq<char>, Seq<char>>::empty());
        res
    }

    /// A JSON error response: `{"error": message, "status": status}`.
    pub fn error(status: u16, message: &str) -> (res: Self)
        ensures
            res.wf(),
            res.status == status,
            res.header_map() == map!["Content-Type"@ => "application/json"@],
            res.body@ == error_json_of(message@, status),
            res.content_type@ == "application/json"@,
            res.body_type is Bytes,
    {
        let mut headers = StrMap::new();
        headers.insert(String::from_str("Content-Type"), String::from_str("application/json"));
        let res = Response {
            status,
            headers,
            body: error_json_body(message, status),
            content_type: String::from_str("application/json"),
            body_type: ResponseBody::Bytes(Vec::new()),
        };
        assert(res.header_map() =~= map!["Content-Type"@ => "application/json"@]);
        res
    }

    /// Sets a header, replacing any earlier value; control characters are removed
    /// from the value.
    pub fn set_header(&mut self, key: &str, value: &str)
        requires
            old(self).wf(),
        ensures
            final(self).wf(),
            final(self).header_map() == old(self).header_map().insert(key@, strip_ctl(value@)),
            final(self).status == old(self).status,
            final(self).body == old(self).body,
            final(self).content_type == old(self).content_type,
            final(self).body_type == old(self).body_type,
    {
        let v = sanitize_header_value(value);
        self.headers.insert(owned(key), v);
        assert(self.header_map() =~= old(self).header_map().insert(key@, strip_ctl(value@)));
    }

    /// The value of header `key`, when set.
    pub fn get_header(&self, key: &str) -> (res: Option<String>)
        requires
            self.wf(),
        ensures
            res matches Some(v) ==> self.header_map().dom().contains(key@) && self.header_map()[key@] == v@,
            res is None ==> !self.header_map().dom().contains(key@),
    {
        match self.headers.get(key) {
            Some(v) => Some(v.clone()),
            None => None,
        }
    }
}

/// An error a middleware refuses a request with: a message and the HTTP
/// status the refusal is answered with.
#[derive(Debug)]
pub struct MiddlewareError {
    pub message: String,
    pub status: u16,
}

impl MiddlewareError {
    /// An error with a message and a status.
    pub fn new(message: &str, status: u16) -> (res: Self)
        ensures
            res.message@ == message@,
            res.status == status,
    {
        MiddlewareError { message: owned(message), status }
    }

    /// A 401 Unauthorized refusal.
    pub fn unauthorized(message: &str) -> (res: Self)
        ensures
            res.message@ == message@,
            res.status == 401,
    {
        Self::new(message, 401)
    }

    /// A 403 Forbidden refusal.
    pub fn forbidden(message: &str) -> (res: Self)
        ensures
            res.message@ == message@,
            res.status == 403,
    {
        Self::new(message, 403)
    }

    /// A 413 Payload Too Large refusal.
    pub fn payload_too_large(message: &str) -> (res: Self)
        ensures
            res.message@ == message@,
            res.status == 413,
    {
        Self::new(message, 413)
    }
}

/// What a middleware decides before the handler runs: go on, or answer at once.
pub enum MiddlewareAction {
    Continue,
    Stop(Response),
}

/// A JSON value, as the request context holds it.
pub enum JsonValue {
    Null,
    Bool(bool),
    /// A number, by its JSON text.
    Number(String),
    Str(String),
    Array(Vec<JsonValue>),
    /// Members in order; a lookup takes the first member with the key.
    Object(Vec<(String, JsonValue)>),
}

/// The value of the first member `key` of an object.
pub open spec fn member(fields: Seq<(String, JsonValue)>, key: Seq<char>) -> Option<JsonValue>
    decreases fields.len(),
{
    if fields.len() == 0 {
        None
    } else if fields[0].0@ == key {
        Some(fields[0].1)
    } else {
        member(fields.drop_first(), key)
    }
}

impl JsonValue {
    /// The member `key` of an object; nothing for any other value.
    pub open spec fn field(&self, key: Seq<char>) -> Option<JsonValue> {
        match self {
            JsonValue::Object(fields) => member(fields@, key),
            _ => None,
        }
    }

    /// The member `key` of an object; nothing for any other value.
    pub fn get(&self, key: &str) -> (res: Option<&JsonValue>)
        ensures
            res matches Some(v) ==> self.field(key@) == Some(*v),
            res is None ==> self.field(key@) is None,
    {
        match self {
            JsonValue::Object(fields) => {
                let mut i: usize = 0;
                assert(fields@.subrange(0, fields@.len() as int) =~= fields@);
                while i < fields.len()
                    invariant
                        i <= fields@.len(),
                        self.field(key@) == member(fields@, key@),
                        member(fields@, key@) == member(fields@.subrange(i as int, fields@.len() as int), key@),
                    decreases fields.len() - i,
                {
                    let ghost rest = fields@.subrange(i as int, fields@.len() as int);
                    assert(rest[0] == fields@[i as int]);
                    if str_eq(fields[i].0.as_str(), key) {
                        assert(member(rest, key@) == Some(rest[0].1));
                        return Some(&fields[i].1);
                    }
                    assert(rest.drop_first() =~= fields@.subrange(i as int + 1, fields@.len() as int));
                    i = i + 1;
                }
                None
            },
            _ => None,
        }
    }
}

/// An HTTP request as the middleware sees it: header names are kept as they
/// arrived (lowercase from the server); the context holds what middleware
/// hands on to later middleware and handlers.
pub struct Request {
    pub method: String,
    pub path: String,
    /// Parameters taken from the matched route's path.
    pub params: StrMap<String>,
    pub query_params: StrMap<String>,
    pub headers: StrMap<String>,
    pub body: Vec<u8>,
    /// The `content-type` header, as the request arrived.
    pub content_type: Option<String>,
    pub context: StrMap<JsonValue>,
}

impl Request {
    pub open spec fn wf(&self) -> bool {
        self.headers.wf() && self.query_params.wf() && self.params.wf() && self.context.wf()
    }

    /// The context value under `key`.
    pub open spec fn context_value(&self, key: Seq<char>) -> Option<JsonValue> {
        if self.context.to_map().dom().contains(key) {
            Some(self.context.to_map()[key])
        } else {
            None
        }
    }

    /// The headers, by name, as character sequences.
    pub open spec fn header_map(&self) -> Map<Seq<char>, Seq<char>> {
        self.headers.to_map().map_values(|v: String| v@)
    }

    /// The header `name`, looked up exactly.
    pub open spec fn header(&self, name: Seq<char>) -> Option<Seq<char>> {
        if self.header_map().dom().contains(name) {
            Some(self.header_map()[name])
        } else {
            None
        }
    }

    /// A request with no query parameters, headers or body.
    pub fn new(method: &str, path: &str) -> (res: Self)
        ensures
            res.wf(),
            res.method@ == method@,
            res.path@ == path@,
            res.header_map() == Map::<Seq<char>, Seq<char>>::empty(),
            res.query_params.seq().len() == 0,
            res.body@.len() == 0,
            res.context.seq().len() == 0,
            res.params.seq().len() == 0,
            res.content_type is None,
    {
        let res = Request {
            method: owned(method),
            path: owned(path),
            params: StrMap::new(),
            query_params: StrMap::new(),
            headers: StrMap::new(),
            body: Vec::new(),
            content_type: None,
            context: StrMap::new(),
        };
        assert(res.header_map() =~= Map::<Seq<char>, Seq<char>>::empty());
        res
    }

    /// Sets a header (as the server would have received it).
    pub fn set_header(&mut self, key: &str, value: &str)
        requires
            old(self).wf(),
        ensures
            final(self).wf(),
            final(self).header_map() == old(self).header_map().insert(key@, value@),
            final(self).method == old(self).method,
            final(self).path == old(self).path,
            final(self).query_params == old(self).query_params,
            final(self).body == old(self).body,
            final(self).context == old(self).context,
            final(self).params == old(self).params,
            final(self).content_type == old(self).content_type,
    {
        self.headers.insert(owned(key), owned(value));
        assert(self.header_map() =~= old(self).header_map().insert(key@, value@));
    }

    /// The value of cookie `name`, from the `Cookie` header.
    pub open spec fn cookie(&self, name: Seq<char>) -> Option<Seq<char>> {
        match self.header("cookie"@) {
            Some(h) => cookie_value(split_char(h, ';'), name),
            None => None,
        }
    }

    /// The value of cookie `name`, from the `Cookie` header.
    pub fn get_cookie(&self, name: &str) -> (res: Option<String>)
        requires
            self.wf(),
        ensures
            res matches Some(v) ==> self.cookie(name@) == Some(v@),
            res is None ==> self.cookie(name@) is None,
    {
        match self.header_value("cookie") {
            Some(h) => find_cookie(h, name),
            None => None,
        }
    }

    /// The header `key`, looked up exactly.
    pub fn header_value(&self, key: &str) -> (res: Option<&str>)
        requires
            self.wf(),
        ensures
            res matches Some(v) ==> self.header(key@) == Some(v@),
            res is None ==> self.header(key@) is None,
    {
        match self.headers.get(key) {
            Some(v) => Some(v.as_str()),
            None => None,
        }
    }
}

impl Request {
    /// Sets a context value.
    pub fn set_context_internal(&mut self, key: &str, value: JsonValue)
        requires
            old(self).wf(),
        ensures
            final(self).wf(),
            final(self).context.to_map() == old(self).context.to_map().insert(key@, value),
            final(self).method == old(self).method,
            final(self).path == old(self).path,
            final(self).headers == old(self).headers,
            final(self).query_params == old(self).query_params,
            final(self).body == old(self).body,
            final(self).params == old(self).params,
            final(self).content_type == old(self).content_type,
    {
        self.context.insert(owned(key), value);
    }

    /// The context value under `key`, when it is a string.
    pub fn get_context_str(&self, key: &str) -> (res: Option<String>)
        requires
            self.wf(),
        ensures
            match self.context_value(key@) {
                Some(JsonValue::Str(s)) => res matches Some(r) && r@ == s@,
                _ => res is None,
            },
    {
        match self.context.get(key) {
            Some(JsonValue::Str(s)) => Some(s.clone()),
            _ => None,
        }
    }

    /// The request id that middleware put in the context, if any.
    pub fn request_id(&self) -> (res: Option<String>)
        requires
            self.wf(),
        ensures
            match self.context_value("request_id"@) {
                Some(JsonValue::Str(s)) => res matches Some(r) && r@ == s@,
                _ => res is None,
            },
    {
        self.get_context_str("request_id")
    }
}

impl Default for Request {
    /// An empty request: no method, path, parameters, headers, body or context.
    fn default() -> (res: Self)
        ensures
            res.wf(),
            res.method@.len() == 0,
            res.path@.len() == 0,
            res.header_map() == Map::<Seq<char>, Seq<char>>::empty(),
            res.query_params.seq().len() == 0,
            res.body@.len() == 0,
            res.context.seq().len() == 0,
    {
        let r = Request::new("", "");
        proof {
            reveal_strlit("");
        }
        r
    }
}

} // verus!
