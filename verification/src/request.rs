//! What handlers and middleware ask of a request: parameters by name, typed
//! query values, headers looked up without regard to case, the client's address,
//! content kinds and context values.
use vstd::prelude::*;
use crate::http::{JsonValue, Request};
use crate::strmap::StrMap;
use crate::text::{
    ascii_lower, before_char, chars_of, contains_sub, eq_ignore_ascii_case, find_str, find_sub, owned,
    parse_i64, parse_i64_exec, str_contains, str_eq, str_trim, string_of_range, strip_char_both,
    to_lowercase, trim, unicode_lowercase,
};

verus! {

// ============================================================================
// Copies
// ============================================================================

/// Two JSON values hold the same data.
pub open spec fn json_same(a: JsonValue, b: JsonValue) -> bool
    decreases a,
{
    match (a, b) {
        (JsonValue::Array(x), JsonValue::Array(y)) => x@.len() == y@.len() && forall|i: int|
            0 <= i < x@.len() ==> json_same(#[trigger] x@[i], y@[i]),
        (JsonValue::Object(x), JsonValue::Object(y)) => x@.len() == y@.len() && forall|i: int|
            0 <= i < x@.len() ==> (#[trigger] x@[i]).0 == y@[i].0 && json_same(x@[i].1, y@[i].1),
        (JsonValue::Array(_), _) => false,
        (JsonValue::Object(_), _) => false,
        _ => a == b,
    }
}

impl JsonValue {
    /// A copy holding the same data.
    pub fn copy(&self) -> (res: Self)
        ensures
            json_same(*self, res),
        decreases self,
    {
        match self {
            JsonValue::Null => JsonValue::Null,
            JsonValue::Bool(b) => JsonValue::Bool(*b),
            JsonValue::Number(n) => JsonValue::Number(n.clone()),
            JsonValue::Str(s) => JsonValue::Str(s.clone()),
            JsonValue::Array(items) => {
                let mut out: Vec<JsonValue> = Vec::new();
                let mut i: usize = 0;
                while i < items.len()
                    invariant
                        *self == JsonValue::Array(*items),
                        i <= items@.len(),
                        out@.len() == i,
                        forall|k: int| 0 <= k < i ==> json_same(#[trigger] items@[k], out@[k]),
                    decreases items.len() - i,
                {
                    proof {
                        assert((*self)->Array_0 == *items);
                        assert(decreases_to!(*self => (*self)->Array_0));
                        assert(decreases_to!(*items => items@));
                        assert(decreases_to!(items@ => items@[i as int]));
                        assert(decreases_to!(*self => items@[i as int]));
                    }
                    out.push(items[i].copy());
                    i = i + 1;
                }
                JsonValue::Array(out)
            },
            JsonValue::Object(fields) => {
                let mut out: Vec<(String, JsonValue)> = Vec::new();
                let mut i: usize = 0;
                while i < fields.len()
                    invariant
                        *self == JsonValue::Object(*fields),
                        i <= fields@.len(),
                        out@.len() == i,
                        forall|k: int| 0 <= k < i ==> (#[trigger] fields@[k]).0 == out@[k].0 && json_same(fields@[k].1, out@[k].1),
                    decreases fields.len() - i,
                {
                    proof {
                        assert((*self)->Object_0 == *fields);
                        assert(decreases_to!(*self => (*self)->Object_0));
                        assert(decreases_to!(*fields => fields@));
                        assert(decreases_to!(fields@ => fields@[i as int]));
                        assert(decreases_to!(fields@[i as int] => fields@[i as int].1));
                        assert(decreases_to!(*self => fields@[i as int].1));
                    }
                    out.push((fields[i].0.clone(), fields[i].1.copy()));
                    i = i + 1;
                }
                JsonValue::Object(out)
            },
        }
    }
}

/// An equal copy of a map of strings.
pub fn copy_string_map(m: &StrMap<String>) -> (res: StrMap<String>)
    ensures
        res.seq() == m.seq(),
{
    let mut out: Vec<(String, String)> = Vec::new();
    let mut i: usize = 0;
    while i < m.entries.len()
        invariant
            i <= m.seq().len(),
            out@ == m.seq().subrange(0, i as int),
        decreases m.entries.len() - i,
    {
        out.push((m.entries[i].0.clone(), m.entries[i].1.clone()));
        i = i + 1;
        assert(out@ =~= m.seq().subrange(0, i as int));
    }
    assert(m.seq().subrange(0, m.seq().len() as int) =~= m.seq());
    StrMap { entries: out }
}

/// Two maps of JSON values have the same keys in the same order, with values
/// holding the same data.
pub open spec fn json_map_same(a: StrMap<JsonValue>, b: StrMap<JsonValue>) -> bool {
    &&& a.seq().len() == b.seq().len()
    &&& forall|i: int| 0 <= i < a.seq().len() ==> (#[trigger] a.seq()[i]).0 == b.seq()[i].0
        && json_same(a.seq()[i].1, b.seq()[i].1)
}

/// A copy of a map of JSON values.
pub fn copy_json_map(m: &StrMap<JsonValue>) -> (res: StrMap<JsonValue>)
    ensures
        json_map_same(*m, res),
{
    let mut out: Vec<(String, JsonValue)> = Vec::new();
    let mut i: usize = 0;
    while i < m.entries.len()
        invariant
            i <= m.seq().len(),
            out@.len() == i,
            forall|k: int| 0 <= k < i ==> (#[trigger] m.seq()[k]).0 == out@[k].0 && json_same(m.seq()[k].1, out@[k].1),
        decreases m.entries.len() - i,
    {
        out.push((m.entries[i].0.clone(), m.entries[i].1.copy()));
        i = i + 1;
    }
    StrMap { entries: out }
}

// ============================================================================
// Looking things up
// ============================================================================

/// The value under `key` in a map of strings.
pub open spec fn lookup(m: StrMap<String>, key: Seq<char>) -> Option<Seq<char>> {
    if m.to_map().dom().contains(key) {
        Some(m.to_map()[key]@)
    } else {
        None
    }
}

/// The value of the first entry whose key equals `key` ignoring ASCII case.
pub open spec fn first_ci(entries: Seq<(String, String)>, key: Seq<char>) -> Option<Seq<char>>
    decreases entries.len(),
{
    if entries.len() == 0 {
        None
    } else if ascii_lower(entries[0].0@) == ascii_lower(key) {
        Some(entries[0].1@)
    } else {
        first_ci(entries.drop_first(), key)
    }
}

/// The view of an optional string slice.
pub open spec fn opt_str(o: Option<&str>) -> Option<Seq<char>> {
    match o {
        Some(s) => Some(s@),
        None => None,
    }
}

/// The value under `key`, or the default.
pub open spec fn or_default(found: Option<Seq<char>>, default: Option<&str>) -> Option<Seq<char>> {
    match found {
        Some(v) => Some(v),
        None => opt_str(default),
    }
}

/// A header by name: exactly, then in lowercase, then by the first name equal
/// to it ignoring ASCII case.
pub open spec fn header_ci(r: Request, key: Seq<char>) -> Option<Seq<char>> {
    match lookup(r.headers, key) {
        Some(v) => Some(v),
        None => match lookup(r.headers, ascii_lower(key)) {
            Some(v) => Some(v),
            None => first_ci(r.headers.seq(), key),
        },
    }
}

/// The value under `key`, as an owned string.
fn lookup_exec(m: &StrMap<String>, key: &str) -> (res: Option<String>)
    requires
        m.wf(),
    ensures
        match lookup(*m, key@) {
            Some(v) => res matches Some(r) && r@ == v,
            None => res is None,
        },
{
    match m.get(key) {
        Some(v) => Some(v.clone()),
        None => None,
    }
}

/// Whether a header value, lowercased, is `want`.
fn lower_is(v: &str, want: &str) -> (res: bool)
    ensures
        res == (unicode_lowercase(v@) == want@),
{
    let l = to_lowercase(v);
    str_eq(l.as_str(), want)
}

impl Request {
    /// A request as the server builds it from what arrived: the content type is
    /// the `content-type` header.
    pub fn from_http(
        method: String,
        path: String,
        params: StrMap<String>,
        query: StrMap<String>,
        headers: StrMap<String>,
        body: Vec<u8>,
    ) -> (res: Self)
        requires
            params.wf(),
            query.wf(),
            headers.wf(),
        ensures
            res.wf(),
            res.method == method,
            res.path == path,
            res.params == params,
            res.query_params == query,
            res.headers == headers,
            res.body == body,
            match lookup(headers, "content-type"@) {
                Some(c) => res.content_type matches Some(x) && x@ == c,
                None => res.content_type is None,
            },
            res.context.seq().len() == 0,
    {
        let content_type = lookup_exec(&headers, "content-type");
        Request {
            method,
            path,
            params,
            query_params: query,
            headers,
            body,
            content_type,
            context: StrMap::new(),
        }
    }

    /// A copy of everything but the body, which is left empty.
    pub fn clone_without_body(&self) -> (res: Self)
        ensures
            res.method == self.method,
            res.path == self.path,
            res.params.seq() == self.params.seq(),
            res.query_params.seq() == self.query_params.seq(),
            res.headers.seq() == self.headers.seq(),
            res.body@.len() == 0,
            res.content_type == self.content_type,
            json_map_same(self.context, res.context),
    {
        Request {
            method: self.method.clone(),
            path: self.path.clone(),
            params: copy_string_map(&self.params),
            query_params: copy_string_map(&self.query_params),
            headers: copy_string_map(&self.headers),
            body: Vec::new(),
            content_type: self.content_type.clone(),
            context: copy_json_map(&self.context),
        }
    }

    /// The body's bytes.
    pub fn body_bytes(&self) -> (res: &[u8])
        ensures
            res@ == self.body@,
    {
        self.body.as_slice()
    }

    /// A query parameter, or the default.
    pub fn get_query_param(&self, key: &str, default: Option<&str>) -> (res: Option<String>)
        requires
            self.wf(),
        ensures
            match or_default(lookup(self.query_params, key@), default) {
                Some(v) => res matches Some(r) && r@ == v,
                None => res is None,
            },
    {
        match lookup_exec(&self.query_params, key) {
            Some(v) => Some(v),
            None => match default {
                Some(d) => Some(owned(d)),
                None => None,
            },
        }
    }

    /// A query parameter as an integer: the default when absent, an error when
    /// it is not one.
    pub fn get_query_int(&self, key: &str, default: Option<i64>) -> (res: Result<Option<i64>, String>)
        requires
            self.wf(),
        ensures
            match lookup(self.query_params, key@) {
                None => res == Ok::<Option<i64>, String>(default),
                Some(v) => match parse_i64(v) {
                    Some(n) => res == Ok::<Option<i64>, String>(Some(n as i64)),
                    None => res matches Err(m) && m@ == "Query parameter '"@ + key@ + "' is not a valid integer"@,
                },
            },
    {
        match self.query_params.get(key) {
            Some(v) => match parse_i64_exec(v.as_str()) {
                Some(n) => Ok(Some(n)),
                None => {
                    let mut m = String::from_str("Query parameter '");
                    m.append(key);
                    m.append("' is not a valid integer");
                    Err(m)
                },
            },
            None => Ok(default),
        }
    }

    /// A query parameter as a flag: `true`, `1`, `yes` and `on` (in any case)
    /// are true, anything else false; the default when absent.
    pub fn get_query_bool(&self, key: &str, default: Option<bool>) -> (res: Option<bool>)
        requires
            self.wf(),
        ensures
            match lookup(self.query_params, key@) {
                None => res == default,
                Some(v) => res == Some({
                    let l = unicode_lowercase(v);
                    l == "true"@ || l == "1"@ || l == "yes"@ || l == "on"@
                }),
            },
    {
        match self.query_params.get(key) {
            Some(v) => {
                let l = to_lowercase(v.as_str());
                let s = l.as_str();
                Some(str_eq(s, "true") || str_eq(s, "1") || str_eq(s, "yes") || str_eq(s, "on"))
            },
            None => default,
        }
    }

    /// A header by name, found without regard to ASCII case, or the default.
    pub fn get_header(&self, key: &str, default: Option<&str>) -> (res: Option<String>)
        requires
            self.wf(),
        ensures
            match or_default(header_ci(*self, key@), default) {
                Some(v) => res matches Some(r) && r@ == v,
                None => res is None,
            },
    {
        if let Some(v) = lookup_exec(&self.headers, key) {
            return Some(v);
        }
        let low = crate::text::ascii_lowercase(key);
        if let Some(v) = lookup_exec(&self.headers, low.as_str()) {
            return Some(v);
        }
        let ghost es = self.headers.seq();
        let mut i: usize = 0;
        assert(es.subrange(0, es.len() as int) =~= es);
        while i < self.headers.entries.len()
            invariant
                self.wf(),
                lookup(self.headers, key@) is None,
                lookup(self.headers, ascii_lower(key@)) is None,
                es == self.headers.seq(),
                i <= es.len(),
                first_ci(es, key@) == first_ci(es.subrange(i as int, es.len() as int), key@),
            decreases self.headers.entries.len() - i,
        {
            let ghost rest = es.subrange(i as int, es.len() as int);
            assert(rest[0] == es[i as int]);
            assert(rest.drop_first() =~= es.subrange(i as int + 1, es.len() as int));
            if eq_ignore_ascii_case(self.headers.entries[i].0.as_str(), key) {
                assert(first_ci(rest, key@) == Some(rest[0].1@));
                return Some(self.headers.entries[i].1.clone());
            }
            i = i + 1;
        }
        match default {
            Some(d) => Some(owned(d)),
            None => None,
        }
    }

    /// A path parameter, or the default.
    pub fn get_param(&self, key: &str, default: Option<&str>) -> (res: Option<String>)
        requires
            self.wf(),
        ensures
            match or_default(lookup(self.params, key@), default) {
                Some(v) => res matches Some(r) && r@ == v,
                None => res is None,
            },
    {
        match lookup_exec(&self.params, key) {
            Some(v) => Some(v),
            None => match default {
                Some(d) => Some(owned(d)),
                None => None,
            },
        }
    }

    /// A path parameter as an integer: the default when absent, an error when
    /// it is not one.
    pub fn get_param_int(&self, key: &str, default: Option<i64>) -> (res: Result<Option<i64>, String>)
        requires
            self.wf(),
        ensures
            match lookup(self.params, key@) {
                None => res == Ok::<Option<i64>, String>(default),
                Some(v) => match parse_i64(v) {
                    Some(n) => res == Ok::<Option<i64>, String>(Some(n as i64)),
                    None => res matches Err(m) && m@ == "Path parameter '"@ + key@ + "' is not a valid integer"@,
                },
            },
    {
        match self.params.get(key) {
            Some(v) => match parse_i64_exec(v.as_str()) {
                Some(n) => Ok(Some(n)),
                None => {
                    let mut m = String::from_str("Path parameter '");
                    m.append(key);
                    m.append("' is not a valid integer");
                    Err(m)
                },
            },
            None => Ok(default),
        }
    }
}

/// The piece of `ct` after its first `boundary=` and before the next, with
/// double quotes trimmed from both ends, for a multipart content type.
pub open spec fn boundary_of(ct: Seq<char>) -> Option<Seq<char>> {
    if !contains_sub(ct, "multipart/form-data"@) {
        None
    } else {
        match find_sub(ct, "boundary="@) {
            None => None,
            Some(i) => {
                let rest = ct.subrange(i + 9, ct.len() as int);
                let piece = match find_sub(rest, "boundary="@) {
                    Some(j) => rest.subrange(0, j),
                    None => rest,
                };
                Some(strip_char_both(piece, '"'))
            },
        }
    }
}

/// What a context value reads as text: a string as it is, a number by its
/// JSON text, a flag as `true` or `false`.
pub open spec fn context_text(v: JsonValue) -> Option<Seq<char>> {
    match v {
        JsonValue::Str(s) => Some(s@),
        JsonValue::Number(n) => Some(n@),
        JsonValue::Bool(b) => Some(if b { "true"@ } else { "false"@ }),
        _ => None,
    }
}

/// `find_sub` of a found occurrence lies within the text.
proof fn lemma_find_sub_bounds(hay: Seq<char>, needle: Seq<char>)
    ensures
        find_sub(hay, needle) matches Some(i) ==> 0 <= i && i + needle.len() <= hay.len()
            && hay.subrange(i, i + needle.len()) == needle,
    decreases hay.len(),
{
    if !crate::text::is_prefix(needle, hay) && hay.len() > 0 {
        lemma_find_sub_bounds(hay.drop_first(), needle);
        if let Some(i) = find_sub(hay.drop_first(), needle) {
            assert(hay.subrange(i + 1, i + 1 + needle.len()) =~= hay.drop_first().subrange(i, i + needle.len()));
        }
    }
}

impl Request {
    /// The client's address: the first entry of `x-forwarded-for`, trimmed,
    /// else `x-real-ip`.
    pub fn client_ip(&self) -> (res: Option<String>)
        requires
            self.wf(),
        ensures
            match header_ci(*self, "x-forwarded-for"@) {
                Some(x) => res matches Some(r) && r@ == trim(before_char(x, ',')),
                None => match header_ci(*self, "x-real-ip"@) {
                    Some(v) => res matches Some(r) && r@ == v,
                    None => res is None,
                },
            },
    {
        match self.get_header("x-forwarded-for", None) {
            Some(xff) => {
                let v = chars_of(xff.as_str());
                let end = match crate::text::find_char(&v, ',') {
                    Some(k) => k,
                    None => v.len(),
                };
                proof {
                    crate::text::lemma_first_index_bounds(v@, ',');
                    if end == v.len() {
                        assert(v@.subrange(0, end as int) =~= v@);
                    }
                }
                let first = string_of_range(&v, 0, end);
                Some(str_trim(first.as_str()))
            },
            None => self.get_header("x-real-ip", None),
        }
    }

    /// The `user-agent` header.
    pub fn user_agent(&self) -> (res: Option<String>)
        requires
            self.wf(),
        ensures
            match header_ci(*self, "user-agent"@) {
                Some(v) => res matches Some(r) && r@ == v,
                None => res is None,
            },
    {
        self.get_header("user-agent", None)
    }

    /// The host: `x-forwarded-host`, else `host`.
    pub fn host(&self) -> (res: Option<String>)
        requires
            self.wf(),
        ensures
            match header_ci(*self, "x-forwarded-host"@) {
                Some(v) => res matches Some(r) && r@ == v,
                None => match header_ci(*self, "host"@) {
                    Some(v) => res matches Some(r) && r@ == v,
                    None => res is None,
                },
            },
    {
        match self.get_header("x-forwarded-host", None) {
            Some(h) => Some(h),
            None => self.get_header("host", None),
        }
    }

    /// Whether the `accept` header mentions `content_type`.
    pub fn accepts(&self, content_type: &str) -> (res: bool)
        requires
            self.wf(),
        ensures
            res == match header_ci(*self, "accept"@) {
                Some(a) => contains_sub(a, content_type@),
                None => false,
            },
    {
        match self.get_header("accept", None) {
            Some(a) => str_contains(a.as_str(), content_type),
            None => false,
        }
    }

    /// Whether the request was made by a script (`x-requested-with:
    /// XMLHttpRequest`, in any case).
    pub fn is_xhr(&self) -> (res: bool)
        requires
            self.wf(),
        ensures
            res == match header_ci(*self, "x-requested-with"@) {
                Some(v) => unicode_lowercase(v) == "xmlhttprequest"@,
                None => false,
            },
    {
        match self.get_header("x-requested-with", None) {
            Some(v) => lower_is(v.as_str(), "xmlhttprequest"),
            None => false,
        }
    }

    /// Whether the request came over HTTPS, as `x-forwarded-proto` (or, without
    /// it, `x-forwarded-scheme`) says.
    pub fn is_secure(&self) -> (res: bool)
        requires
            self.wf(),
        ensures
            res == match header_ci(*self, "x-forwarded-proto"@) {
                Some(p) => unicode_lowercase(p) == "https"@,
                None => match header_ci(*self, "x-forwarded-scheme"@) {
                    Some(p) => unicode_lowercase(p) == "https"@,
                    None => false,
                },
            },
    {
        match self.get_header("x-forwarded-proto", None) {
            Some(p) => lower_is(p.as_str(), "https"),
            None => match self.get_header("x-forwarded-scheme", None) {
                Some(p) => lower_is(p.as_str(), "https"),
                None => false,
            },
        }
    }

    /// Whether the content type mentions `pattern`.
    fn content_type_has(&self, pattern: &str) -> (res: bool)
        ensures
            res == match self.content_type {
                Some(c) => contains_sub(c@, pattern@),
                None => false,
            },
    {
        match &self.content_type {
            Some(c) => str_contains(c.as_str(), pattern),
            None => false,
        }
    }

    /// Whether the body is JSON.
    pub fn is_json(&self) -> (res: bool)
        ensures
            res == match self.content_type {
                Some(c) => contains_sub(c@, "application/json"@),
                None => false,
            },
    {
        self.content_type_has("application/json")
    }

    /// Whether the body is a URL-encoded form.
    pub fn is_form(&self) -> (res: bool)
        ensures
            res == match self.content_type {
                Some(c) => contains_sub(c@, "application/x-www-form-urlencoded"@),
                None => false,
            },
    {
        self.content_type_has("application/x-www-form-urlencoded")
    }

    /// Whether the body is multipart form data.
    pub fn is_multipart(&self) -> (res: bool)
        ensures
            res == match self.content_type {
                Some(c) => contains_sub(c@, "multipart/form-data"@),
                None => false,
            },
    {
        self.content_type_has("multipart/form-data")
    }

    /// The multipart boundary, for a multipart request.
    pub fn multipart_boundary(&self) -> (res: Option<String>)
        ensures
            match self.content_type {
                Some(c) => match boundary_of(c@) {
                    Some(b) => res matches Some(r) && r@ == b,
                    None => res is None,
                },
                None => res is None,
            },
    {
        match &self.content_type {
            Some(ct) => {
                if !str_contains(ct.as_str(), "multipart/form-data") {
                    return None;
                }
                let v = chars_of(ct.as_str());
                let pat = chars_of("boundary=");
                proof {
                    reveal_strlit("boundary=");
                    lemma_find_sub_bounds(v@, pat@);
                }
                assert(pat@.len() == 9);
                match find_str(&v, &pat) {
                    None => None,
                    Some(i) => {
                        assert(find_sub(v@, pat@) == Some(i as int));
                        proof {
                            lemma_find_sub_bounds(v@, pat@);
                        }
                        assert(i as int + pat@.len() <= v@.len());
                        let n = v.len();
                        assert(i as int + 9 <= n as int);
                        let rest_s = string_of_range(&v, i + 9, v.len());
                        let rest = chars_of(rest_s.as_str());
                        proof {
                            lemma_find_sub_bounds(rest@, pat@);
                        }
                        let end = match find_str(&rest, &pat) {
                            Some(j) => j,
                            None => rest.len(),
                        };
                        if end == rest.len() {
                            assert(rest@.subrange(0, end as int) =~= rest@);
                        }
                        let piece = string_of_range(&rest, 0, end);
                        let trimmed = crate::text::trim_char_matches(piece.as_str(), '"');
                        Some(owned(trimmed))
                    },
                }
            },
            None => None,
        }
    }

    /// A copy of the context value under `key`.
    pub fn get_context_internal(&self, key: &str) -> (res: Option<JsonValue>)
        requires
            self.wf(),
        ensures
            match self.context_value(key@) {
                Some(v) => res matches Some(r) && json_same(v, r),
                None => res is None,
            },
    {
        match self.context.get(key) {
            Some(v) => Some(v.copy()),
            None => None,
        }
    }

    /// The context value under `key`, read as text.
    pub fn get_context_string(&self, key: &str) -> (res: Option<String>)
        requires
            self.wf(),
        ensures
            match self.context_value(key@) {
                Some(v) => match context_text(v) {
                    Some(t) => res matches Some(r) && r@ == t,
                    None => res is None,
                },
                None => res is None,
            },
    {
        match self.context.get(key) {
            Some(JsonValue::Str(s)) => Some(s.clone()),
            Some(JsonValue::Number(n)) => Some(n.clone()),
            Some(JsonValue::Bool(b)) => if *b {
                Some(String::from_str("true"))
            } else {
                Some(String::from_str("false"))
            },
            _ => None,
        }
    }
}

} // verus!
