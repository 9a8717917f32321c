//! Cross-Origin Resource Sharing: allowed origins, methods and headers,
//! preflight answers and the headers added to actual responses.
use vstd::prelude::*;
use vstd::string::*;
use crate::http::{MiddlewareAction, Request, Response, strip_ctl};
use crate::strmap::{StrSet, seq_insert, seq_insert_all};
use crate::text::{before_char, chars_of, dec, ends_with, is_prefix, is_suffix, join, join_strings, owned, ref_views, str_eq, str_starts_with, string_of_range, strip_prefix_all, to_lowercase, to_uppercase, trim_start_matches, u64_to_string, unicode_lowercase, unicode_uppercase, find_char};

verus! {

// ============================================================================
// Allowed origins
// ============================================================================

/// Which origins may make cross-origin requests.
pub enum AllowedOrigins {
    /// Allow all origins (`*`).
    Any,
    /// Allow the listed origins.
    List(StrSet),
    /// Mirror the request origin.
    Mirror,
}

/// Whether `origin` is allowed.
pub open spec fn origin_allowed(o: AllowedOrigins, origin: Seq<char>) -> bool {
    match o {
        AllowedOrigins::Any => true,
        AllowedOrigins::List(l) => l.to_set().contains(origin),
        AllowedOrigins::Mirror => true,
    }
}

/// The `Access-Control-Allow-Origin` value for `origin`, if it is allowed.
pub open spec fn origin_value(o: AllowedOrigins, origin: Seq<char>) -> Option<Seq<char>> {
    match o {
        AllowedOrigins::Any => Some("*"@),
        AllowedOrigins::List(l) => if l.to_set().contains(origin) {
            Some(origin)
        } else {
            None
        },
        AllowedOrigins::Mirror => Some(origin),
    }
}

impl AllowedOrigins {
    pub open spec fn wf(&self) -> bool {
        match self {
            AllowedOrigins::List(l) => l.wf(),
            _ => true,
        }
    }

    /// Check if origin is allowed.
    pub fn is_allowed(&self, origin: &str) -> (res: bool)
        ensures
            res == origin_allowed(*self, origin@),
    {
        match self {
            AllowedOrigins::Any => true,
            AllowedOrigins::List(list) => list.contains(origin),
            AllowedOrigins::Mirror => true,
        }
    }

    /// Get the header value for an origin.
    pub fn header_value(&self, origin: &str) -> (res: Option<String>)
        ensures
            res matches Some(v) ==> origin_value(*self, origin@) == Some(v@),
            res is None ==> origin_value(*self, origin@) is None,
    {
        match self {
            AllowedOrigins::Any => Some(String::from_str("*")),
            AllowedOrigins::List(list) => {
                if list.contains(origin) {
                    Some(owned(origin))
                } else {
                    None
                }
            },
            AllowedOrigins::Mirror => Some(owned(origin)),
        }
    }

    /// The default: any origin.
    pub fn default() -> (res: Self)
        ensures
            res is Any,
    {
        AllowedOrigins::Any
    }
}

// ============================================================================
// Configuration
// ============================================================================

/// CORS middleware configuration.
pub struct CorsConfig {
    /// Allowed origins
    pub origins: AllowedOrigins,
    /// Allowed HTTP methods
    pub methods: StrSet,
    /// Allowed request headers
    pub allowed_headers: StrSet,
    /// Headers exposed to the client
    pub exposed_headers: StrSet,
    /// Allow credentials (cookies, auth)
    pub credentials: bool,
    /// Preflight cache duration (seconds)
    pub max_age: Option<u32>,
    /// Whether to pass preflight to next handler
    pub pass_preflight: bool,
    /// Success status for preflight (204 or 200)
    pub preflight_status: u16,
}

/// The uppercase forms of a list of method names.
pub open spec fn upper_all(v: Seq<Seq<char>>) -> Seq<Seq<char>> {
    v.map_values(|m: Seq<char>| unicode_uppercase(m))
}

/// The lowercase forms of a list of header names.
pub open spec fn lower_all(v: Seq<Seq<char>>) -> Seq<Seq<char>> {
    v.map_values(|m: Seq<char>| unicode_lowercase(m))
}

/// The methods allowed by default, in order.
pub open spec fn default_methods() -> Seq<Seq<char>> {
    seq!["GET"@, "POST"@, "PUT"@, "PATCH"@, "DELETE"@, "HEAD"@, "OPTIONS"@]
}

/// Adds each of `items` to `set` in turn.
pub(crate) fn insert_each(set: &mut StrSet, items: &Vec<String>)
    requires
        old(set).wf(),
    ensures
        final(set).wf(),
        final(set).members() == seq_insert_all(old(set).members(), crate::text::views(items@)),
{
    let ghost start = set.members();
    let mut i: usize = 0;
    while i < items.len()
        invariant
            set.wf(),
            i <= items@.len(),
            set.members() == seq_insert_all(start, crate::text::views(items@).subrange(0, i as int)),
        decreases items.len() - i,
    {
        set.insert(items[i].clone());
        assert(crate::text::views(items@).subrange(0, i as int + 1).drop_last()
            =~= crate::text::views(items@).subrange(0, i as int));
        i = i + 1;
    }
    assert(crate::text::views(items@).subrange(0, items@.len() as int) =~= crate::text::views(items@));
}

/// The uppercase forms of `items`.
fn uppercase_each(items: &Vec<&str>) -> (res: Vec<String>)
    ensures
        crate::text::views(res@) == upper_all(ref_views(items@)),
{
    let mut out: Vec<String> = Vec::new();
    let mut i: usize = 0;
    while i < items.len()
        invariant
            i <= items@.len(),
            out@.len() == i,
            forall|j: int| 0 <= j < i ==> #[trigger] out@[j]@ == unicode_uppercase(items@[j]@),
        decreases items.len() - i,
    {
        out.push(to_uppercase(items[i]));
        i = i + 1;
    }
    assert(crate::text::views(out@) =~= upper_all(ref_views(items@)));
    out
}

/// The lowercase forms of `items`.
fn lowercase_each(items: &Vec<&str>) -> (res: Vec<String>)
    ensures
        crate::text::views(res@) == lower_all(ref_views(items@)),
{
    let mut out: Vec<String> = Vec::new();
    let mut i: usize = 0;
    while i < items.len()
        invariant
            i <= items@.len(),
            out@.len() == i,
            forall|j: int| 0 <= j < i ==> #[trigger] out@[j]@ == unicode_lowercase(items@[j]@),
        decreases items.len() - i,
    {
        out.push(to_lowercase(items[i]));
        i = i + 1;
    }
    assert(crate::text::views(out@) =~= lower_all(ref_views(items@)));
    out
}

/// Owned copies of `items`.
fn owned_each(items: &Vec<&str>) -> (res: Vec<String>)
    ensures
        crate::text::views(res@) == ref_views(items@),
{
    let mut out: Vec<String> = Vec::new();
    let mut i: usize = 0;
    while i < items.len()
        invariant
            i <= items@.len(),
            out@.len() == i,
            forall|j: int| 0 <= j < i ==> #[trigger] out@[j]@ == items@[j]@,
        decreases items.len() - i,
    {
        out.push(owned(items[i]));
        i = i + 1;
    }
    assert(crate::text::views(out@) =~= ref_views(items@));
    out
}

impl CorsConfig {
    pub open spec fn wf(&self) -> bool {
        &&& self.origins.wf()
        &&& self.methods.wf()
        &&& self.allowed_headers.wf()
        &&& self.exposed_headers.wf()
    }

    /// Create new CORS config with permissive defaults: any origin, the common
    /// methods, no listed headers, no credentials, a day of preflight caching,
    /// preflight answered here with 204.
    pub fn new() -> (res: Self)
        ensures
            res.wf(),
            res.origins is Any,
            res.methods.members() == default_methods(),
            res.allowed_headers.members().len() == 0,
            res.exposed_headers.members().len() == 0,
            !res.credentials,
            res.max_age == Some(86400u32),
            !res.pass_preflight,
            res.preflight_status == 204,
    {
        let mut methods = StrSet::new();
        let items = vec![
            String::from_str("GET"),
            String::from_str("POST"),
            String::from_str("PUT"),
            String::from_str("PATCH"),
            String::from_str("DELETE"),
            String::from_str("HEAD"),
            String::from_str("OPTIONS"),
        ];
        proof {
            reveal_strlit("GET");
            reveal_strlit("POST");
            reveal_strlit("PUT");
            reveal_strlit("PATCH");
            reveal_strlit("DELETE");
            reveal_strlit("HEAD");
            reveal_strlit("OPTIONS");
            assert("GET"@.len() == 3 && "GET"@[0] == 'G');
            assert("POST"@.len() == 4 && "POST"@[0] == 'P');
            assert("PUT"@.len() == 3 && "PUT"@[0] == 'P');
            assert("PATCH"@.len() == 5);
            assert("DELETE"@.len() == 6);
            assert("HEAD"@.len() == 4 && "HEAD"@[0] == 'H');
            assert("OPTIONS"@.len() == 7);
        }
        insert_each(&mut methods, &items);
        proof {
            let v = crate::text::views(items@);
            assert(v =~= default_methods());
            reveal_with_fuel(seq_insert_all, 8);
            assert(seq_insert_all(Seq::empty(), v) =~= default_methods()) by {
                assert(v.drop_last() =~= seq!["GET"@, "POST"@, "PUT"@, "PATCH"@, "DELETE"@, "HEAD"@]);
                assert(v.drop_last().drop_last() =~= seq!["GET"@, "POST"@, "PUT"@, "PATCH"@, "DELETE"@]);
                assert(v.drop_last().drop_last().drop_last() =~= seq!["GET"@, "POST"@, "PUT"@, "PATCH"@]);
                assert(v.drop_last().drop_last().drop_last().drop_last() =~= seq!["GET"@, "POST"@, "PUT"@]);
                assert(v.drop_last().drop_last().drop_last().drop_last().drop_last() =~= seq!["GET"@, "POST"@]);
                assert(v.drop_last().drop_last().drop_last().drop_last().drop_last().drop_last() =~= seq!["GET"@]);
                assert(v.drop_last().drop_last().drop_last().drop_last().drop_last().drop_last().drop_last() =~= Seq::<Seq<char>>::empty());
                assert(seq_insert_all(Seq::empty(), seq!["GET"@]) =~= seq!["GET"@]);
                assert(seq_insert_all(Seq::empty(), seq!["GET"@, "POST"@]) =~= seq!["GET"@, "POST"@]);
                assert(seq_insert_all(Seq::empty(), seq!["GET"@, "POST"@, "PUT"@]) =~= seq!["GET"@, "POST"@, "PUT"@]);
                assert(seq_insert_all(Seq::empty(), seq!["GET"@, "POST"@, "PUT"@, "PATCH"@])
                    =~= seq!["GET"@, "POST"@, "PUT"@, "PATCH"@]);
                assert(seq_insert_all(Seq::empty(), seq!["GET"@, "POST"@, "PUT"@, "PATCH"@, "DELETE"@])
                    =~= seq!["GET"@, "POST"@, "PUT"@, "PATCH"@, "DELETE"@]);
                assert(seq_insert_all(Seq::empty(), seq!["GET"@, "POST"@, "PUT"@, "PATCH"@, "DELETE"@, "HEAD"@])
                    =~= seq!["GET"@, "POST"@, "PUT"@, "PATCH"@, "DELETE"@, "HEAD"@]);
            }
        }
        CorsConfig {
            origins: AllowedOrigins::Any,
            methods,
            allowed_headers: StrSet::new(),
            exposed_headers: StrSet::new(),
            credentials: false,
            max_age: Some(86400),
            pass_preflight: false,
            preflight_status: 204,
        }
    }

    /// Create strict CORS config: as `new`, but no origin is allowed.
    pub fn strict() -> (res: Self)
        ensures
            res.wf(),
            res.origins matches AllowedOrigins::List(l) && l.members().len() == 0,
            res.methods.members() == default_methods(),
            res.allowed_headers.members().len() == 0,
            res.exposed_headers.members().len() == 0,
            !res.credentials,
            res.max_age == Some(86400u32),
            !res.pass_preflight,
            res.preflight_status == 204,
    {
        let mut c = Self::new();
        c.origins = AllowedOrigins::List(StrSet::new());
        c
    }

    /// Allow all origins.
    pub fn allow_any_origin(self) -> (res: Self)
        requires
            self.wf(),
        ensures
            res.wf(),
            res == (CorsConfig { origins: AllowedOrigins::Any, ..self }),
    {
        let mut c = self;
        c.origins = AllowedOrigins::Any;
        c
    }

    /// Allow a specific origin: added to the list, or a new list of it alone when
    /// the origins were not a list.
    pub fn allow_origin(self, origin: &str) -> (res: Self)
        requires
            self.wf(),
        ensures
            res.wf(),
            res.origins matches AllowedOrigins::List(l) && l.members() == match self.origins {
                AllowedOrigins::List(old_l) => seq_insert(old_l.members(), origin@),
                _ => seq![origin@],
            },
            res == (CorsConfig { origins: res.origins, ..self }),
    {
        let mut c = self;
        let origins = c.origins;
        match origins {
            AllowedOrigins::List(list) => {
                let mut l = list;
                l.insert(owned(origin));
                c.origins = AllowedOrigins::List(l);
            },
            _ => {
                let mut l = StrSet::new();
                l.insert(owned(origin));
                assert(seq_insert(Seq::<Seq<char>>::empty(), origin@) =~= seq![origin@]);
                c.origins = AllowedOrigins::List(l);
            },
        }
        c
    }

    /// Allow exactly the given origins (repeats kept once, in first-seen order).
    pub fn allow_origins(self, origins: Vec<&str>) -> (res: Self)
        requires
            self.wf(),
        ensures
            res.wf(),
            res.origins matches AllowedOrigins::List(l) && l.members() == seq_insert_all(Seq::empty(), ref_views(origins@)),
            res == (CorsConfig { origins: res.origins, ..self }),
    {
        let mut c = self;
        let items = owned_each(&origins);
        let mut l = StrSet::new();
        insert_each(&mut l, &items);
        c.origins = AllowedOrigins::List(l);
        c
    }

    /// Mirror request origin.
    pub fn mirror_origin(self) -> (res: Self)
        requires
            self.wf(),
        ensures
            res.wf(),
            res == (CorsConfig { origins: AllowedOrigins::Mirror, ..self }),
    {
        let mut c = self;
        c.origins = AllowedOrigins::Mirror;
        c
    }

    /// Allow a specific HTTP method (stored in uppercase).
    pub fn allow_method(self, method: &str) -> (res: Self)
        requires
            self.wf(),
        ensures
            res.wf(),
            res.methods.members() == seq_insert(self.methods.members(), unicode_uppercase(method@)),
            res == (CorsConfig { methods: res.methods, ..self }),
    {
        let mut c = self;
        c.methods.insert(to_uppercase(method));
        c
    }

    /// Allow several HTTP methods (stored in uppercase).
    pub fn allow_methods(self, methods: Vec<&str>) -> (res: Self)
        requires
            self.wf(),
        ensures
            res.wf(),
            res.methods.members() == seq_insert_all(self.methods.members(), upper_all(ref_views(methods@))),
            res == (CorsConfig { methods: res.methods, ..self }),
    {
        let mut c = self;
        let items = uppercase_each(&methods);
        insert_each(&mut c.methods, &items);
        c
    }

    /// Allow a specific request header (stored in lowercase).
    pub fn allow_header(self, header: &str) -> (res: Self)
        requires
            self.wf(),
        ensures
            res.wf(),
            res.allowed_headers.members() == seq_insert(self.allowed_headers.members(), unicode_lowercase(header@)),
            res == (CorsConfig { allowed_headers: res.allowed_headers, ..self }),
    {
        let mut c = self;
        c.allowed_headers.insert(to_lowercase(header));
        c
    }

    /// Allow several request headers (stored in lowercase).
    pub fn allow_headers(self, headers: Vec<&str>) -> (res: Self)
        requires
            self.wf(),
        ensures
            res.wf(),
            res.allowed_headers.members() == seq_insert_all(self.allowed_headers.members(), lower_all(ref_views(headers@))),
            res == (CorsConfig { allowed_headers: res.allowed_headers, ..self }),
    {
        let mut c = self;
        let items = lowercase_each(&headers);
        insert_each(&mut c.allowed_headers, &items);
        c
    }

    /// Allow all request headers: the requested ones are reflected.
    pub fn allow_any_header(self) -> (res: Self)
        requires
            self.wf(),
        ensures
            res.wf(),
            res.allowed_headers.members() == seq!["*"@],
            res == (CorsConfig { allowed_headers: res.allowed_headers, ..self }),
    {
        let mut c = self;
        c.allowed_headers.clear();
        c.allowed_headers.insert(String::from_str("*"));
        assert(seq_insert(Seq::<Seq<char>>::empty(), "*"@) =~= seq!["*"@]);
        c
    }

    /// Expose a header to the client.
    pub fn expose_header(self, header: &str) -> (res: Self)
        requires
            self.wf(),
        ensures
            res.wf(),
            res.exposed_headers.members() == seq_insert(self.exposed_headers.members(), header@),
            res == (CorsConfig { exposed_headers: res.exposed_headers, ..self }),
    {
        let mut c = self;
        c.exposed_headers.insert(owned(header));
        c
    }

    /// Expose several headers to the client.
    pub fn expose_headers(self, headers: Vec<&str>) -> (res: Self)
        requires
            self.wf(),
        ensures
            res.wf(),
            res.exposed_headers.members() == seq_insert_all(self.exposed_headers.members(), ref_views(headers@)),
            res == (CorsConfig { exposed_headers: res.exposed_headers, ..self }),
    {
        let mut c = self;
        let items = owned_each(&headers);
        insert_each(&mut c.exposed_headers, &items);
        c
    }

    /// Allow credentials; since `*` cannot go with credentials, any-origin
    /// becomes mirror-origin.
    pub fn allow_credentials(self) -> (res: Self)
        requires
            self.wf(),
        ensures
            res.wf(),
            res == (CorsConfig {
                credentials: true,
                origins: if self.origins is Any { AllowedOrigins::Mirror } else { self.origins },
                ..self
            }),
    {
        let mut c = self;
        c.credentials = true;
        if let AllowedOrigins::Any = c.origins {
            c.origins = AllowedOrigins::Mirror;
        }
        c
    }

    /// Set preflight cache duration.
    pub fn max_age(self, seconds: u32) -> (res: Self)
        requires
            self.wf(),
        ensures
            res.wf(),
            res == (CorsConfig { max_age: Some(seconds), ..self }),
    {
        let mut c = self;
        c.max_age = Some(seconds);
        c
    }

    /// Disable preflight caching.
    pub fn no_max_age(self) -> (res: Self)
        requires
            self.wf(),
        ensures
            res.wf(),
            res == (CorsConfig { max_age: None, ..self }),
    {
        let mut c = self;
        c.max_age = None;
        c
    }

    /// Pass preflight requests to the next handler.
    pub fn pass_preflight(self) -> (res: Self)
        requires
            self.wf(),
        ensures
            res.wf(),
            res == (CorsConfig { pass_preflight: true, ..self }),
    {
        let mut c = self;
        c.pass_preflight = true;
        c
    }

    /// Set preflight response status (204 or 200).
    pub fn preflight_status(self, status: u16) -> (res: Self)
        requires
            self.wf(),
        ensures
            res.wf(),
            res == (CorsConfig { preflight_status: status, ..self }),
    {
        let mut c = self;
        c.preflight_status = status;
        c
    }

    /// The default configuration (that of `new`).
    pub fn default() -> (res: Self)
        ensures
            res.wf(),
            res.origins is Any,
            res.methods.members() == default_methods(),
            res.allowed_headers.members().len() == 0,
            res.exposed_headers.members().len() == 0,
            !res.credentials,
            res.max_age == Some(86400u32),
            !res.pass_preflight,
            res.preflight_status == 204,
    {
        Self::new()
    }
}

// ============================================================================
// What the middleware writes
// ============================================================================

/// What `Response::set_header` does to the header map.
pub open spec fn set_hdr(m: Map<Seq<char>, Seq<char>>, k: Seq<char>, v: Seq<char>) -> Map<Seq<char>, Seq<char>> {
    m.insert(k, strip_ctl(v))
}

/// The headers of a preflight answer, for the request's `Origin` (empty when
/// absent) and `Access-Control-Request-Headers`.
pub open spec fn preflight_headers(c: CorsConfig, origin: Option<Seq<char>>, requested: Option<Seq<char>>) -> Map<Seq<char>, Seq<char>> {
    let o = match origin {
        Some(x) => x,
        None => Seq::empty(),
    };
    let m0 = Map::<Seq<char>, Seq<char>>::empty();
    let m1 = match origin_value(c.origins, o) {
        Some(a) => if c.credentials && a == "*"@ {
            if o.len() > 0 {
                set_hdr(m0, "Access-Control-Allow-Origin"@, o)
            } else {
                m0
            }
        } else {
            set_hdr(m0, "Access-Control-Allow-Origin"@, a)
        },
        None => m0,
    };
    let m2 = set_hdr(m1, "Access-Control-Allow-Methods"@, join(c.methods.members(), ", "@));
    let m3 = if c.allowed_headers.to_set().contains("*"@) {
        match requested {
            Some(r) => set_hdr(m2, "Access-Control-Allow-Headers"@, r),
            None => m2,
        }
    } else if c.allowed_headers.members().len() > 0 {
        set_hdr(m2, "Access-Control-Allow-Headers"@, join(c.allowed_headers.members(), ", "@))
    } else {
        m2
    };
    let m4 = if c.credentials {
        set_hdr(m3, "Access-Control-Allow-Credentials"@, "true"@)
    } else {
        m3
    };
    let m5 = match c.max_age {
        Some(n) => set_hdr(m4, "Access-Control-Max-Age"@, dec(n as nat)),
        None => m4,
    };
    set_hdr(m5, "Vary"@, "Origin, Access-Control-Request-Method, Access-Control-Request-Headers"@)
}

/// The response headers after the CORS headers are added for a request whose
/// `Origin` header is `origin`.
pub open spec fn cors_headers(c: CorsConfig, origin: Option<Seq<char>>, m: Map<Seq<char>, Seq<char>>) -> Map<Seq<char>, Seq<char>> {
    match origin {
        None => m,
        Some(o) => if !origin_allowed(c.origins, o) {
            m
        } else {
            let m1 = match origin_value(c.origins, o) {
                Some(a) => if c.credentials && a == "*"@ {
                    set_hdr(set_hdr(m, "Access-Control-Allow-Origin"@, o), "Vary"@, "Origin"@)
                } else if a != "*"@ {
                    set_hdr(set_hdr(m, "Access-Control-Allow-Origin"@, a), "Vary"@, "Origin"@)
                } else {
                    set_hdr(m, "Access-Control-Allow-Origin"@, a)
                },
                None => m,
            };
            let m2 = if c.credentials {
                set_hdr(m1, "Access-Control-Allow-Credentials"@, "true"@)
            } else {
                m1
            };
            let m3 = if c.exposed_headers.members().len() > 0 {
                set_hdr(m2, "Access-Control-Expose-Headers"@, join(c.exposed_headers.members(), ", "@))
            } else {
                m2
            };
            let vary = if m3.dom().contains("Vary"@) {
                m3["Vary"@] + ", Origin"@
            } else {
                "Origin"@
            };
            set_hdr(m3, "Vary"@, vary)
        },
    }
}

/// For a request from an allowed origin, the response names every exposed
/// header, joined by ", ", in `Access-Control-Expose-Headers` when any are
/// configured, and leaves that header as it was when none are.
pub proof fn lemma_exposed_headers(c: CorsConfig, o: Seq<char>, m: Map<Seq<char>, Seq<char>>)
    requires
        origin_allowed(c.origins, o),
    ensures
        c.exposed_headers.members().len() > 0 ==> {
            &&& cors_headers(c, Some(o), m).dom().contains("Access-Control-Expose-Headers"@)
            &&& cors_headers(c, Some(o), m)["Access-Control-Expose-Headers"@]
                == strip_ctl(join(c.exposed_headers.members(), ", "@))
        },
        c.exposed_headers.members().len() == 0 ==> (
            cors_headers(c, Some(o), m).dom().contains("Access-Control-Expose-Headers"@)
                <==> m.dom().contains("Access-Control-Expose-Headers"@)),
        c.exposed_headers.members().len() == 0 && m.dom().contains("Access-Control-Expose-Headers"@)
            ==> cors_headers(c, Some(o), m)["Access-Control-Expose-Headers"@] == m["Access-Control-Expose-Headers"@],
{
    reveal_strlit("Access-Control-Expose-Headers");
    reveal_strlit("Access-Control-Allow-Origin");
    reveal_strlit("Access-Control-Allow-Credentials");
    reveal_strlit("Vary");
    assert("Access-Control-Expose-Headers"@.len() == 29);
    assert("Access-Control-Allow-Origin"@.len() == 27);
    assert("Access-Control-Allow-Credentials"@.len() == 32);
    assert("Vary"@.len() == 4);
}

/// The origin headers of an actual request: a request without `Origin`, or
/// from an origin not allowed, gets no CORS headers at all; from an allowed
/// origin, any origin being allowed gives `*` (or, with credentials, the
/// origin itself, which credentials require), a listed or mirrored origin is
/// echoed back; with credentials, `Access-Control-Allow-Credentials: true` is
/// added; and the answer carries a `Vary` header.
pub proof fn lemma_origin_headers(c: CorsConfig, o: Seq<char>, m: Map<Seq<char>, Seq<char>>)
    ensures
        cors_headers(c, None, m) == m,
        !origin_allowed(c.origins, o) ==> cors_headers(c, Some(o), m) == m,
        origin_allowed(c.origins, o) ==> {
            let h = cors_headers(c, Some(o), m);
            &&& h.dom().contains("Access-Control-Allow-Origin"@)
            &&& h["Access-Control-Allow-Origin"@] == strip_ctl(match c.origins {
                AllowedOrigins::Any => if c.credentials { o } else { "*"@ },
                _ => o,
            })
            &&& c.credentials ==> h.dom().contains("Access-Control-Allow-Credentials"@)
                && h["Access-Control-Allow-Credentials"@] == strip_ctl("true"@)
            &&& h.dom().contains("Vary"@)
        },
{
    reveal_strlit("Access-Control-Expose-Headers");
    reveal_strlit("Access-Control-Allow-Origin");
    reveal_strlit("Access-Control-Allow-Credentials");
    reveal_strlit("Vary");
    reveal_strlit("*");
    assert("Access-Control-Expose-Headers"@.len() == 29);
    assert("Access-Control-Allow-Origin"@.len() == 27);
    assert("Access-Control-Allow-Credentials"@.len() == 32);
    assert("Vary"@.len() == 4);
    if origin_allowed(c.origins, o) {
        match c.origins {
            AllowedOrigins::List(l) => {
                assert(l.to_set().contains(o));
            },
            _ => {},
        }
    }
}

/// CORS middleware.
pub struct CorsMiddleware {
    pub config: CorsConfig,
}

impl CorsMiddleware {
    pub open spec fn wf(&self) -> bool {
        self.config.wf()
    }

    /// Create new CORS middleware with permissive defaults.
    pub fn new() -> (res: Self)
        ensures
            res.wf(),
            res.config.origins is Any,
            res.config.methods.members() == default_methods(),
            res.config.allowed_headers.members().len() == 0,
            res.config.exposed_headers.members().len() == 0,
            !res.config.credentials,
            res.config.max_age == Some(86400u32),
            !res.config.pass_preflight,
            res.config.preflight_status == 204,
    {
        CorsMiddleware { config: CorsConfig::default() }
    }

    /// Create with config.
    pub fn with_config(config: CorsConfig) -> (res: Self)
        ensures
            res.config == config,
    {
        CorsMiddleware { config }
    }

    /// Set allowed origins from a list of strings: `["*"]` means any origin,
    /// anything else the list itself.
    pub fn set_origins(&mut self, origins: Vec<String>)
        requires
            old(self).wf(),
        ensures
            final(self).wf(),
            (origins@.len() == 1 && origins@[0]@ == "*"@) ==> final(self).config.origins is Any,
            !(origins@.len() == 1 && origins@[0]@ == "*"@) ==> (final(self).config.origins matches AllowedOrigins::List(l)
                && l.members() == seq_insert_all(Seq::empty(), crate::text::views(origins@))),
            final(self).config == (CorsConfig { origins: final(self).config.origins, ..old(self).config }),
    {
        if origins.len() == 1 && str_eq(origins[0].as_str(), "*") {
            self.config.origins = AllowedOrigins::Any;
        } else {
            let mut l = StrSet::new();
            insert_each(&mut l, &origins);
            self.config.origins = AllowedOrigins::List(l);
        }
    }

    /// Create permissive CORS: any origin, any header.
    pub fn permissive() -> (res: Self)
        ensures
            res.wf(),
            res.config.origins is Any,
            res.config.methods.members() == default_methods(),
            res.config.allowed_headers.members() == seq!["*"@],
            res.config.exposed_headers.members().len() == 0,
            !res.config.credentials,
            res.config.max_age == Some(86400u32),
            !res.config.pass_preflight,
            res.config.preflight_status == 204,
    {
        CorsMiddleware { config: CorsConfig::new().allow_any_origin().allow_any_header() }
    }

    /// A preflight request: `OPTIONS` with `Access-Control-Request-Method`.
    pub fn is_preflight(&self, request: &Request) -> (res: bool)
        requires
            request.wf(),
        ensures
            res == (request.method@ == "OPTIONS"@ && request.header("access-control-request-method"@) is Some),
    {
        str_eq(request.method.as_str(), "OPTIONS") && request.header_value("access-control-request-method").is_some()
    }

    /// The request's `Origin` header.
    pub fn get_origin(&self, request: &Request) -> (res: Option<String>)
        requires
            request.wf(),
        ensures
            res matches Some(o) ==> request.header("origin"@) == Some(o@),
            res is None ==> request.header("origin"@) is None,
    {
        match request.header_value("origin") {
            Some(o) => Some(owned(o)),
            None => None,
        }
    }

    /// Build the answer to a preflight request.
    pub fn build_preflight_response(&self, request: &Request) -> (res: Response)
        requires
            self.wf(),
            request.wf(),
        ensures
            res.wf(),
            res.status == self.config.preflight_status,
            res.header_map() == preflight_headers(self.config, request.header("origin"@), request.header("access-control-request-headers"@)),
            res.body@.len() == 0,
            res.content_type@ == "text/plain"@,
    {
        let mut response = Response::new(self.config.preflight_status);
        let origin = match self.get_origin(request) {
            Some(o) => o,
            None => String::new(),
        };
        let ghost o = origin@;
        match self.config.origins.header_value(origin.as_str()) {
            Some(allowed) => {
                if self.config.credentials && str_eq(allowed.as_str(), "*") {
                    if origin.unicode_len() > 0 {
                        response.set_header("Access-Control-Allow-Origin", origin.as_str());
                    }
                } else {
                    response.set_header("Access-Control-Allow-Origin", allowed.as_str());
                }
            },
            None => {},
        }
        let methods = join_strings(&self.config.methods.items, ", ");
        response.set_header("Access-Control-Allow-Methods", methods.as_str());
        if self.config.allowed_headers.contains("*") {
            match request.header_value("access-control-request-headers") {
                Some(requested) => {
                    response.set_header("Access-Control-Allow-Headers", requested);
                },
                None => {},
            }
        } else if !self.config.allowed_headers.is_empty() {
            let headers = join_strings(&self.config.allowed_headers.items, ", ");
            response.set_header("Access-Control-Allow-Headers", headers.as_str());
        }
        if self.config.credentials {
            response.set_header("Access-Control-Allow-Credentials", "true");
        }
        match self.config.max_age {
            Some(max_age) => {
                let v = u64_to_string(max_age as u64);
                response.set_header("Access-Control-Max-Age", v.as_str());
            },
            None => {},
        }
        response.set_header("Vary", "Origin, Access-Control-Request-Method, Access-Control-Request-Headers");
        assert(response.header_map() =~= preflight_headers(
            self.config,
            request.header("origin"@),
            request.header("access-control-request-headers"@),
        ));
        response
    }

    /// Add the CORS headers to the response of an actual (non-preflight) request.
    pub fn add_cors_headers(&self, request: &Request, response: &mut Response)
        requires
            self.wf(),
            request.wf(),
            old(response).wf(),
        ensures
            final(response).wf(),
            final(response).header_map() == cors_headers(self.config, request.header("origin"@), old(response).header_map()),
            final(response).status == old(response).status,
            final(response).body == old(response).body,
            final(response).content_type == old(response).content_type,
    {
        let origin = match self.get_origin(request) {
            Some(o) => o,
            None => {
                return;
            },
        };
        if !self.config.origins.is_allowed(origin.as_str()) {
            return;
        }
        match self.config.origins.header_value(origin.as_str()) {
            Some(allowed) => {
                if self.config.credentials && str_eq(allowed.as_str(), "*") {
                    response.set_header("Access-Control-Allow-Origin", origin.as_str());
                    response.set_header("Vary", "Origin");
                } else {
                    response.set_header("Access-Control-Allow-Origin", allowed.as_str());
                    if !str_eq(allowed.as_str(), "*") {
                        response.set_header("Vary", "Origin");
                    }
                }
            },
            None => {},
        }
        if self.config.credentials {
            response.set_header("Access-Control-Allow-Credentials", "true");
        }
        if !self.config.exposed_headers.is_empty() {
            let headers = join_strings(&self.config.exposed_headers.items, ", ");
            response.set_header("Access-Control-Expose-Headers", headers.as_str());
        }
        let vary = match response.get_header("Vary") {
            Some(v) => {
                let mut s = v;
                s.append(", Origin");
                s
            },
            None => String::from_str("Origin"),
        };
        response.set_header("Vary", vary.as_str());
    }

    /// Before the handler: a preflight request is answered here unless it is
    /// passed on.
    pub fn before(&self, request: &Request) -> (res: MiddlewareAction)
        requires
            self.wf(),
            request.wf(),
        ensures
            (self.config.pass_preflight || !(request.method@ == "OPTIONS"@ && request.header("access-control-request-method"@) is Some))
                ==> res is Continue,
            (!self.config.pass_preflight && request.method@ == "OPTIONS"@ && request.header("access-control-request-method"@) is Some)
                ==> (res matches MiddlewareAction::Stop(r) && r.wf() && r.status == self.config.preflight_status
                    && r.header_map() == preflight_headers(self.config, request.header("origin"@), request.header("access-control-request-headers"@))),
    {
        if self.is_preflight(request) {
            if self.config.pass_preflight {
                return MiddlewareAction::Continue;
            }
            let response = self.build_preflight_response(request);
            return MiddlewareAction::Stop(response);
        }
        MiddlewareAction::Continue
    }

    /// After the handler: an actual request gets the CORS headers.
    pub fn after(&self, request: &Request, response: &mut Response)
        requires
            self.wf(),
            request.wf(),
            old(response).wf(),
        ensures
            final(response).wf(),
            (request.method@ == "OPTIONS"@ && request.header("access-control-request-method"@) is Some)
                ==> final(response).header_map() == old(response).header_map(),
            !(request.method@ == "OPTIONS"@ && request.header("access-control-request-method"@) is Some)
                ==> final(response).header_map() == cors_headers(self.config, request.header("origin"@), old(response).header_map()),
            final(response).status == old(response).status,
            final(response).body == old(response).body,
    {
        if !self.is_preflight(request) {
            self.add_cors_headers(request, response);
        }
    }

    /// Runs very early.
    pub fn priority(&self) -> (res: i32)
        ensures
            res == -100,
    {
        -100
    }

    /// The middleware's name.
    pub fn name(&self) -> (res: &'static str)
        ensures
            res@ == "cors"@,
    {
        "cors"
    }

    /// The default middleware (that of `new`).
    pub fn default() -> (res: Self)
        ensures
            res.wf(),
            res.config.origins is Any,
            res.config.methods.members() == default_methods(),
            res.config.allowed_headers.members().len() == 0,
            res.config.exposed_headers.members().len() == 0,
            !res.config.credentials,
            res.config.max_age == Some(86400u32),
            !res.config.pass_preflight,
            res.config.preflight_status == 204,
    {
        Self::new()
    }
}

// ============================================================================
// Helper functions
// ============================================================================

/// Whether `domain` matches `pattern`: a pattern `*.suffix` matches a domain
/// that ends with `suffix`, or that equals `suffix` without its first
/// character; any other pattern matches only itself.
pub open spec fn spec_domain_matches(pattern: Seq<char>, domain: Seq<char>) -> bool {
    if is_prefix("*."@, pattern) {
        let suffix = pattern.subrange(2, pattern.len() as int);
        is_suffix(suffix, domain) || (suffix.len() > 0 && domain == suffix.subrange(1, suffix.len() as int))
    } else {
        pattern == domain
    }
}

/// Check if domain matches pattern (e.g., `*.example.com`).
pub fn domain_matches(pattern: &str, domain: &str) -> (res: bool)
    requires
        // the first character after `*.` is dropped by byte slicing, which needs
        // a one-byte character there when the suffix test fails
        is_prefix("*."@, pattern@) && pattern@.len() > 2 && !is_suffix(pattern@.subrange(2, pattern@.len() as int), domain@)
            ==> (pattern@[2] as u32) < 128,
    ensures
        res == spec_domain_matches(pattern@, domain@),
{
    proof {
        reveal_strlit("*.");
    }
    if str_starts_with(pattern, "*.") {
        let pv = chars_of(pattern);
        let dv = chars_of(domain);
        let suffix = string_of_range(&pv, 2, pv.len());
        let sv = chars_of(suffix.as_str());
        if ends_with(&dv, &sv) {
            return true;
        }
        if pv.len() == 2 {
            return false;
        }
        let rest = string_of_range(&pv, 3, pv.len());
        assert(suffix@.subrange(1, suffix@.len() as int) =~= pv@.subrange(3, pv@.len() as int));
        str_eq(domain, rest.as_str())
    } else {
        str_eq(pattern, domain)
    }
}

/// The host of an origin URL: leading `http://` and then `https://` prefixes
/// removed, and everything from the first `:` on dropped.
pub open spec fn spec_extract_domain(origin: Seq<char>) -> Seq<char> {
    before_char(strip_prefix_all(strip_prefix_all(origin, "http://"@), "https://"@), ':')
}

/// Extract domain from origin URL; there is always a result.
pub fn extract_domain(origin: &str) -> (res: Option<&str>)
    ensures
        res matches Some(d) && d@ == spec_extract_domain(origin@),
{
    let a = trim_start_matches(origin, "http://");
    let b = trim_start_matches(a, "https://");
    let v = chars_of(b);
    match find_char(&v, ':') {
        Some(i) => Some(b.substring_char(0, i)),
        None => Some(b),
    }
}

} // verus!
