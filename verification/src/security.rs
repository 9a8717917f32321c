//! Security response headers (Helmet-like): Content Security Policy, HSTS,
//! X-Frame-Options, X-Content-Type-Options, Referrer-Policy, Permissions-Policy
//! and the cross-origin policies.
use vstd::prelude::*;
use vstd::string::*;
use crate::random::{base64_encode, base64_standard, random_bytes};
use crate::strmap::StrMap;
use crate::text::{append_u64, dec, join, join_strings, owned, ref_views, replace_all, replace_str, views};

verus! {

/// The views of a list of header `(name, value)` pairs.
pub open spec fn header_views(v: Seq<(String, String)>) -> Seq<(Seq<char>, Seq<char>)> {
    v.map_values(|h: (String, String)| (h.0@, h.1@))
}

/// Owned copies of a list of string slices.
pub fn to_strings(values: &Vec<&str>) -> (res: Vec<String>)
    ensures
        views(res@) == ref_views(values@),
{
    let mut out: Vec<String> = Vec::new();
    let mut i: usize = 0;
    while i < values.len()
        invariant
            i <= values@.len(),
            out@.len() == i,
            forall|j: int| 0 <= j < i ==> #[trigger] out@[j]@ == values@[j]@,
        decreases values.len() - i,
    {
        out.push(owned(values[i]));
        i = i + 1;
    }
    assert(views(out@) =~= ref_views(values@));
    out
}

// ============================================================================
// Content Security Policy
// ============================================================================

/// Content Security Policy builder.
pub struct ContentSecurityPolicy {
    pub directives: StrMap<Vec<String>>,
    pub report_uri: Option<String>,
    pub report_only: bool,
}

/// A directive value with the `{nonce}` placeholder filled in when a nonce is given.
pub open spec fn nonce_subst(v: Seq<char>, nonce: Option<Seq<char>>) -> Seq<char> {
    match nonce {
        Some(n) => replace_all(v, "{nonce}"@, n),
        None => v,
    }
}

/// One directive as it appears in the header: its name alone when it has no values,
/// else the name, a space and the values separated by spaces.
pub open spec fn csp_part(name: Seq<char>, values: Seq<Seq<char>>, nonce: Option<Seq<char>>) -> Seq<char> {
    if values.len() == 0 {
        name
    } else {
        name + " "@ + join(values.map_values(|v: Seq<char>| nonce_subst(v, nonce)), " "@)
    }
}

pub open spec fn csp_parts(entries: Seq<(String, Vec<String>)>, nonce: Option<Seq<char>>) -> Seq<Seq<char>> {
    entries.map_values(|e: (String, Vec<String>)| csp_part(e.0@, views(e.1@), nonce))
}

/// The header value: every directive in order, then `report-uri` when set, joined by `"; "`.
pub open spec fn csp_header(p: ContentSecurityPolicy, nonce: Option<Seq<char>>) -> Seq<char> {
    join(csp_parts(p.directives.seq(), nonce) + match p.report_uri {
        Some(u) => seq!["report-uri "@ + u@],
        None => Seq::<Seq<char>>::empty(),
    }, "; "@)
}

impl ContentSecurityPolicy {
    pub open spec fn wf(&self) -> bool {
        self.directives.wf()
    }

    /// The directive named `name` now holds `values`; the others are unchanged.
    pub open spec fn sets(&self, res: &Self, name: Seq<char>, values: Seq<Seq<char>>) -> bool {
        &&& res.wf()
        &&& res.directives.to_map() == self.directives.to_map().insert(name, res.directives.to_map()[name])
        &&& views(res.directives.to_map()[name]@) == values
        &&& forall|k: Seq<char>| k != name ==> #[trigger] res.directives.to_map()[k] == self.directives.to_map()[k]
        &&& res.report_uri == self.report_uri
        &&& res.report_only == self.report_only
    }

    /// Create new CSP builder.
    pub fn new() -> (res: Self)
        ensures
            res.wf(),
            res.directives.seq().len() == 0,
            res.report_uri is None,
            !res.report_only,
    {
        ContentSecurityPolicy { directives: StrMap::new(), report_uri: None, report_only: false }
    }

    /// Create strict CSP preset.
    pub fn strict() -> (res: Self)
        ensures
            res.wf(),
            res.directives.to_map().dom() == set![
                "default-src"@, "script-src"@, "style-src"@, "img-src"@, "font-src"@,
                "connect-src"@, "base-uri"@, "form-action"@, "frame-ancestors"@
            ],
            views(res.directives.to_map()["default-src"@]@) == seq!["'self'"@],
            views(res.directives.to_map()["script-src"@]@) == seq!["'self'"@],
            views(res.directives.to_map()["style-src"@]@) == seq!["'self'"@],
            views(res.directives.to_map()["img-src"@]@) == seq!["'self'"@, "data:"@],
            views(res.directives.to_map()["font-src"@]@) == seq!["'self'"@],
            views(res.directives.to_map()["connect-src"@]@) == seq!["'self'"@],
            views(res.directives.to_map()["frame-ancestors"@]@) == seq!["'none'"@],
            views(res.directives.to_map()["base-uri"@]@) == seq!["'self'"@],
            views(res.directives.to_map()["form-action"@]@) == seq!["'self'"@],
            res.report_uri is None,
            !res.report_only,
    {
        let v1 = vec!["'self'"];
        let v2 = vec!["'self'"];
        let v3 = vec!["'self'"];
        let v4 = vec!["'self'", "data:"];
        let v5 = vec!["'self'"];
        let v6 = vec!["'self'"];
        let v7 = vec!["'none'"];
        let v8 = vec!["'self'"];
        let v9 = vec!["'self'"];
        proof {
            assert(ref_views(v1@) =~= seq!["'self'"@]);
            assert(ref_views(v2@) =~= seq!["'self'"@]);
            assert(ref_views(v3@) =~= seq!["'self'"@]);
            assert(ref_views(v4@) =~= seq!["'self'"@, "data:"@]);
            assert(ref_views(v5@) =~= seq!["'self'"@]);
            assert(ref_views(v6@) =~= seq!["'self'"@]);
            assert(ref_views(v7@) =~= seq!["'none'"@]);
            assert(ref_views(v8@) =~= seq!["'self'"@]);
            assert(ref_views(v9@) =~= seq!["'self'"@]);
        }
        let r1 = Self::new().default_src(v1);
        let r2 = r1.script_src(v2);
        let r3 = r2.style_src(v3);
        let r4 = r3.img_src(v4);
        let r5 = r4.font_src(v5);
        let r6 = r5.connect_src(v6);
        let r7 = r6.frame_ancestors(v7);
        let r8 = r7.base_uri(v8);
        let r = r8.form_action(v9);
        proof {
            reveal_strlit("default-src");
            reveal_strlit("script-src");
            reveal_strlit("style-src");
            reveal_strlit("img-src");
            reveal_strlit("font-src");
            reveal_strlit("connect-src");
            reveal_strlit("frame-ancestors");
            reveal_strlit("base-uri");
            reveal_strlit("form-action");
            assert("default-src"@.len() == 11 && "default-src"@[0] == 'd');
            assert("script-src"@.len() == 10 && "script-src"@[0] == 's');
            assert("style-src"@.len() == 9 && "style-src"@[0] == 's');
            assert("img-src"@.len() == 7 && "img-src"@[0] == 'i');
            assert("font-src"@.len() == 8 && "font-src"@[0] == 'f');
            assert("connect-src"@.len() == 11 && "connect-src"@[0] == 'c');
            assert("frame-ancestors"@.len() == 15 && "frame-ancestors"@[0] == 'f');
            assert("base-uri"@.len() == 8 && "base-uri"@[0] == 'b');
            assert("form-action"@.len() == 11 && "form-action"@[0] == 'f');
            assert(r.directives.to_map().dom() =~= set![
                "default-src"@, "script-src"@, "style-src"@, "img-src"@, "font-src"@,
                "connect-src"@, "base-uri"@, "form-action"@, "frame-ancestors"@
            ]);
        }
        r
    }

    /// Add directive.
    pub fn directive(self, name: &str, values: Vec<&str>) -> (res: Self)
        requires
            self.wf(),
        ensures
            self.sets(&res, name@, ref_views(values@)),
    {
        let mut c = self;
        let vals = to_strings(&values);
        c.directives.insert(owned(name), vals);
        c
    }

    /// Set default-src directive.
    pub fn default_src(self, values: Vec<&str>) -> (res: Self)
        requires self.wf(),
        ensures self.sets(&res, "default-src"@, ref_views(values@)),
    {
        self.directive("default-src", values)
    }

    /// Set script-src directive.
    pub fn script_src(self, values: Vec<&str>) -> (res: Self)
        requires self.wf(),
        ensures self.sets(&res, "script-src"@, ref_views(values@)),
    {
        self.directive("script-src", values)
    }

    /// Set script-src with nonce support: the values followed by `'nonce-{nonce}'`.
    pub fn script_src_nonce(self, values: Vec<&str>) -> (res: Self)
        requires self.wf(),
        ensures self.sets(&res, "script-src"@, ref_views(values@).push("'nonce-{nonce}'"@)),
    {
        let mut vals = values;
        vals.push("'nonce-{nonce}'");
        assert(ref_views(vals@) =~= ref_views(values@).push("'nonce-{nonce}'"@));
        self.directive("script-src", vals)
    }

    /// Set style-src directive.
    pub fn style_src(self, values: Vec<&str>) -> (res: Self)
        requires self.wf(),
        ensures self.sets(&res, "style-src"@, ref_views(values@)),
    {
        self.directive("style-src", values)
    }

    /// Set style-src with nonce support: the values followed by `'nonce-{nonce}'`.
    pub fn style_src_nonce(self, values: Vec<&str>) -> (res: Self)
        requires self.wf(),
        ensures self.sets(&res, "style-src"@, ref_views(values@).push("'nonce-{nonce}'"@)),
    {
        let mut vals = values;
        vals.push("'nonce-{nonce}'");
        assert(ref_views(vals@) =~= ref_views(values@).push("'nonce-{nonce}'"@));
        self.directive("style-src", vals)
    }

    /// Set img-src directive.
    pub fn img_src(self, values: Vec<&str>) -> (res: Self)
        requires self.wf(),
        ensures self.sets(&res, "img-src"@, ref_views(values@)),
    {
        self.directive("img-src", values)
    }

    /// Set font-src directive.
    pub fn font_src(self, values: Vec<&str>) -> (res: Self)
        requires self.wf(),
        ensures self.sets(&res, "font-src"@, ref_views(values@)),
    {
        self.directive("font-src", values)
    }

    /// Set connect-src directive.
    pub fn connect_src(self, values: Vec<&str>) -> (res: Self)
        requires self.wf(),
        ensures self.sets(&res, "connect-src"@, ref_views(values@)),
    {
        self.directive("connect-src", values)
    }

    /// Set media-src directive.
    pub fn media_src(self, values: Vec<&str>) -> (res: Self)
        requires self.wf(),
        ensures self.sets(&res, "media-src"@, ref_views(values@)),
    {
        self.directive("media-src", values)
    }

    /// Set object-src directive.
    pub fn object_src(self, values: Vec<&str>) -> (res: Self)
        requires self.wf(),
        ensures self.sets(&res, "object-src"@, ref_views(values@)),
    {
        self.directive("object-src", values)
    }

    /// Set frame-src directive.
    pub fn frame_src(self, values: Vec<&str>) -> (res: Self)
        requires self.wf(),
        ensures self.sets(&res, "frame-src"@, ref_views(values@)),
    {
        self.directive("frame-src", values)
    }

    /// Set child-src directive.
    pub fn child_src(self, values: Vec<&str>) -> (res: Self)
        requires self.wf(),
        ensures self.sets(&res, "child-src"@, ref_views(values@)),
    {
        self.directive("child-src", values)
    }

    /// Set worker-src directive.
    pub fn worker_src(self, values: Vec<&str>) -> (res: Self)
        requires self.wf(),
        ensures self.sets(&res, "worker-src"@, ref_views(values@)),
    {
        self.directive("worker-src", values)
    }

    /// Set frame-ancestors directive.
    pub fn frame_ancestors(self, values: Vec<&str>) -> (res: Self)
        requires self.wf(),
        ensures self.sets(&res, "frame-ancestors"@, ref_views(values@)),
    {
        self.directive("frame-ancestors", values)
    }

    /// Set base-uri directive.
    pub fn base_uri(self, values: Vec<&str>) -> (res: Self)
        requires self.wf(),
        ensures self.sets(&res, "base-uri"@, ref_views(values@)),
    {
        self.directive("base-uri", values)
    }

    /// Set form-action directive.
    pub fn form_action(self, values: Vec<&str>) -> (res: Self)
        requires self.wf(),
        ensures self.sets(&res, "form-action"@, ref_views(values@)),
    {
        self.directive("form-action", values)
    }

    /// Set upgrade-insecure-requests directive (a directive without values).
    pub fn upgrade_insecure_requests(self) -> (res: Self)
        requires self.wf(),
        ensures self.sets(&res, "upgrade-insecure-requests"@, Seq::empty()),
    {
        let mut c = self;
        let empty: Vec<String> = Vec::new();
        assert(views(empty@) =~= Seq::<Seq<char>>::empty());
        c.directives.insert(owned("upgrade-insecure-requests"), empty);
        c
    }

    /// Set block-all-mixed-content directive (a directive without values).
    pub fn block_all_mixed_content(self) -> (res: Self)
        requires self.wf(),
        ensures self.sets(&res, "block-all-mixed-content"@, Seq::empty()),
    {
        let mut c = self;
        let empty: Vec<String> = Vec::new();
        assert(views(empty@) =~= Seq::<Seq<char>>::empty());
        c.directives.insert(owned("block-all-mixed-content"), empty);
        c
    }

    /// Set report-uri directive.
    pub fn report_uri(self, uri: &str) -> (res: Self)
        ensures
            (res.report_uri matches Some(u) && u@ == uri@),
            res.directives == self.directives,
            res.report_only == self.report_only,
    {
        let mut c = self;
        c.report_uri = Some(owned(uri));
        c
    }

    /// Enable report-only mode.
    pub fn report_only(self) -> (res: Self)
        ensures
            res.report_only,
            res.directives == self.directives,
            res.report_uri == self.report_uri,
    {
        let mut c = self;
        c.report_only = true;
        c
    }

    /// Generate nonce value: 16 random bytes, Base64-encoded.
    pub fn generate_nonce() -> (res: String)
        ensures
            exists|b: Seq<u8>| b.len() == 16 && res@ == base64_standard(b),
    {
        let bytes = random_bytes(16);
        base64_encode(bytes.as_slice())
    }

    /// Build CSP header value.
    pub fn build(&self, nonce: Option<&str>) -> (res: String)
        ensures
            res@ == csp_header(*self, match nonce {
                Some(n) => Some(n@),
                None => None,
            }),
    {
        let ghost nv: Option<Seq<char>> = match nonce {
            Some(n) => Some(n@),
            None => None,
        };
        let ghost entries = self.directives.entries@;
        let mut parts: Vec<String> = Vec::new();
        let mut i: usize = 0;
        while i < self.directives.entries.len()
            invariant
                i <= entries.len(),
                entries == self.directives.entries@,
                parts@.len() == i,
                nv == match nonce {
                    Some(n) => Some(n@),
                    None => None::<Seq<char>>,
                },
                forall|j: int| 0 <= j < i ==> #[trigger] parts@[j]@ == csp_part(entries[j].0@, views(entries[j].1@), nv),
            decreases entries.len() - i,
        {
            let part = csp_part_exec(&self.directives.entries[i].0, &self.directives.entries[i].1, nonce);
            parts.push(part);
            i = i + 1;
        }
        assert(views(parts@) =~= csp_parts(entries, nv));
        let ghost before = views(parts@);
        match &self.report_uri {
            Some(u) => {
                let mut r = String::from_str("report-uri ");
                r.append(u.as_str());
                parts.push(r);
                assert(views(parts@) =~= before + seq!["report-uri "@ + u@]);
            },
            None => {
                assert(views(parts@) =~= before + Seq::<Seq<char>>::empty());
            },
        }
        join_strings(&parts, "; ")
    }

    /// Get header name based on report-only mode.
    pub fn header_name(&self) -> (res: &'static str)
        ensures
            res@ == if self.report_only {
                "Content-Security-Policy-Report-Only"@
            } else {
                "Content-Security-Policy"@
            },
    {
        if self.report_only {
            "Content-Security-Policy-Report-Only"
        } else {
            "Content-Security-Policy"
        }
    }
}

fn csp_part_exec(name: &String, values: &Vec<String>, nonce: Option<&str>) -> (res: String)
    ensures
        res@ == csp_part(name@, views(values@), match nonce {
            Some(n) => Some(n@),
            None => None,
        }),
{
    let ghost nv: Option<Seq<char>> = match nonce {
        Some(n) => Some(n@),
        None => None,
    };
    if values.len() == 0 {
        return name.clone();
    }
    let mut vals: Vec<String> = Vec::new();
    let mut i: usize = 0;
    while i < values.len()
        invariant
            i <= values@.len(),
            vals@.len() == i,
            nv == match nonce {
                Some(n) => Some(n@),
                None => None::<Seq<char>>,
            },
            forall|j: int| 0 <= j < i ==> #[trigger] vals@[j]@ == nonce_subst(values@[j]@, nv),
        decreases values.len() - i,
    {
        let v = match nonce {
            Some(n) => {
                proof {
                    reveal_strlit("{nonce}");
                }
                replace_str(values[i].as_str(), "{nonce}", n)
            },
            None => values[i].clone(),
        };
        vals.push(v);
        i = i + 1;
    }
    assert(views(vals@) =~= views(values@).map_values(|v: Seq<char>| nonce_subst(v, nv)));
    let mut out = name.clone();
    out.append(" ");
    let j = join_strings(&vals, " ");
    out.append(j.as_str());
    out
}

// ============================================================================
// HSTS Configuration
// ============================================================================

/// HTTP Strict Transport Security configuration.
#[derive(Clone, Copy, Debug)]
pub struct HstsConfig {
    /// Max age in seconds
    pub max_age: u64,
    /// Include subdomains
    pub include_subdomains: bool,
    /// Enable HSTS preload
    pub preload: bool,
}

impl HstsConfig {
    /// The header value: `max-age=N`, then `; includeSubDomains` and `; preload` when set.
    pub open spec fn value(&self) -> Seq<char> {
        "max-age="@ + dec(self.max_age as nat)
            + (if self.include_subdomains { "; includeSubDomains"@ } else { Seq::empty() })
            + (if self.preload { "; preload"@ } else { Seq::empty() })
    }

    /// Create new HSTS config with max age.
    pub fn new(max_age: u64) -> (res: Self)
        ensures
            res == (HstsConfig { max_age, include_subdomains: false, preload: false }),
    {
        HstsConfig { max_age, include_subdomains: false, preload: false }
    }

    /// Create HSTS config for 1 year.
    pub fn one_year() -> (res: Self)
        ensures
            res == (HstsConfig { max_age: 31536000, include_subdomains: false, preload: false }),
    {
        Self::new(31536000)
    }

    /// Create HSTS config for 2 years (preload requirement).
    pub fn two_years() -> (res: Self)
        ensures
            res == (HstsConfig { max_age: 63072000, include_subdomains: false, preload: false }),
    {
        Self::new(63072000)
    }

    /// Include subdomains.
    pub fn include_subdomains(self) -> (res: Self)
        ensures
            res == (HstsConfig { include_subdomains: true, ..self }),
    {
        let mut c = self;
        c.include_subdomains = true;
        c
    }

    /// Enable preload (which also includes subdomains).
    pub fn preload(self) -> (res: Self)
        ensures
            res == (HstsConfig { preload: true, include_subdomains: true, ..self }),
    {
        let mut c = self;
        c.preload = true;
        c.include_subdomains = true;
        c
    }

    /// Build HSTS header value.
    pub fn build(&self) -> (res: String)
        ensures
            res@ == self.value(),
    {
        let mut v = String::from_str("max-age=");
        append_u64(&mut v, self.max_age);
        let ghost a = v@;
        if self.include_subdomains {
            v.append("; includeSubDomains");
        } else {
            assert(v@ =~= a + Seq::<char>::empty());
        }
        let ghost b = v@;
        if self.preload {
            v.append("; preload");
        } else {
            assert(v@ =~= b + Seq::<char>::empty());
        }
        v
    }

    /// The default: one year, without subdomains or preload.
    pub fn default() -> (res: Self)
        ensures
            res == (HstsConfig { max_age: 31536000, include_subdomains: false, preload: false }),
    {
        Self::one_year()
    }
}

// ============================================================================
// X-Frame-Options
// ============================================================================

/// X-Frame-Options configuration.
#[derive(Clone, Debug)]
pub enum XFrameOptions {
    /// Prevent all framing
    Deny,
    /// Allow same origin only
    SameOrigin,
    /// Allow specific origin (deprecated in browsers)
    AllowFrom(String),
}

impl XFrameOptions {
    /// The header value.
    pub open spec fn value(&self) -> Seq<char> {
        match self {
            XFrameOptions::Deny => "DENY"@,
            XFrameOptions::SameOrigin => "SAMEORIGIN"@,
            XFrameOptions::AllowFrom(o) => "ALLOW-FROM "@ + o@,
        }
    }

    /// Build header value.
    pub fn build(&self) -> (res: String)
        ensures
            res@ == self.value(),
    {
        match self {
            XFrameOptions::Deny => String::from_str("DENY"),
            XFrameOptions::SameOrigin => String::from_str("SAMEORIGIN"),
            XFrameOptions::AllowFrom(origin) => {
                let mut s = String::from_str("ALLOW-FROM ");
                s.append(origin.as_str());
                s
            },
        }
    }

    /// The default: `SAMEORIGIN`.
    pub fn default() -> (res: Self)
        ensures
            res is SameOrigin,
    {
        XFrameOptions::SameOrigin
    }
}

// ============================================================================
// Referrer Policy
// ============================================================================

/// Referrer-Policy configuration.
#[derive(Clone, Copy, Debug, PartialEq, Eq, Structural)]
pub enum ReferrerPolicy {
    NoReferrer,
    NoReferrerWhenDowngrade,
    Origin,
    OriginWhenCrossOrigin,
    SameOrigin,
    StrictOrigin,
    StrictOriginWhenCrossOrigin,
    UnsafeUrl,
}

impl ReferrerPolicy {
    /// Build header value.
    pub fn build(&self) -> (res: &'static str)
        ensures
            res@ == match self {
                ReferrerPolicy::NoReferrer => "no-referrer"@,
                ReferrerPolicy::NoReferrerWhenDowngrade => "no-referrer-when-downgrade"@,
                ReferrerPolicy::Origin => "origin"@,
                ReferrerPolicy::OriginWhenCrossOrigin => "origin-when-cross-origin"@,
                ReferrerPolicy::SameOrigin => "same-origin"@,
                ReferrerPolicy::StrictOrigin => "strict-origin"@,
                ReferrerPolicy::StrictOriginWhenCrossOrigin => "strict-origin-when-cross-origin"@,
                ReferrerPolicy::UnsafeUrl => "unsafe-url"@,
            },
    {
        match self {
            ReferrerPolicy::NoReferrer => "no-referrer",
            ReferrerPolicy::NoReferrerWhenDowngrade => "no-referrer-when-downgrade",
            ReferrerPolicy::Origin => "origin",
            ReferrerPolicy::OriginWhenCrossOrigin => "origin-when-cross-origin",
            ReferrerPolicy::SameOrigin => "same-origin",
            ReferrerPolicy::StrictOrigin => "strict-origin",
            ReferrerPolicy::StrictOriginWhenCrossOrigin => "strict-origin-when-cross-origin",
            ReferrerPolicy::UnsafeUrl => "unsafe-url",
        }
    }

    /// The default: `strict-origin-when-cross-origin`.
    pub fn default() -> (res: Self)
        ensures
            res == ReferrerPolicy::StrictOriginWhenCrossOrigin,
    {
        ReferrerPolicy::StrictOriginWhenCrossOrigin
    }
}

// ============================================================================
// Permissions Policy
// ============================================================================

/// Permissions-Policy builder (formerly Feature-Policy).
pub struct PermissionsPolicy {
    pub directives: StrMap<Vec<String>>,
}

/// One feature as it appears in the header: `name=()` or `name=(v1 v2 ...)`.
pub open spec fn pp_part(name: Seq<char>, values: Seq<Seq<char>>) -> Seq<char> {
    if values.len() == 0 {
        name + "=()"@
    } else {
        name + "=("@ + join(values, " "@) + ")"@
    }
}

pub open spec fn pp_parts(entries: Seq<(String, Vec<String>)>) -> Seq<Seq<char>> {
    entries.map_values(|e: (String, Vec<String>)| pp_part(e.0@, views(e.1@)))
}

impl PermissionsPolicy {
    /// The header value: every feature in order, joined by `", "`.
    pub open spec fn value(&self) -> Seq<char> {
        join(pp_parts(self.directives.seq()), ", "@)
    }

    pub open spec fn wf(&self) -> bool {
        self.directives.wf()
    }

    /// The feature `name` now holds `values`; the others are unchanged.
    pub open spec fn sets(&self, res: &Self, name: Seq<char>, values: Seq<Seq<char>>) -> bool {
        &&& res.wf()
        &&& res.directives.to_map() == self.directives.to_map().insert(name, res.directives.to_map()[name])
        &&& views(res.directives.to_map()[name]@) == values
        &&& forall|k: Seq<char>| k != name ==> #[trigger] res.directives.to_map()[k] == self.directives.to_map()[k]
    }

    /// Create new Permissions-Policy builder.
    pub fn new() -> (res: Self)
        ensures
            res.wf(),
            res.directives.seq().len() == 0,
    {
        PermissionsPolicy { directives: StrMap::new() }
    }

    /// Create restrictive preset (disables most features).
    pub fn restrictive() -> (res: Self)
        ensures
            res.wf(),
            res.directives.to_map().dom() == set!["geolocation"@, "camera"@, "microphone"@, "payment"@, "usb"@],
            forall|k: Seq<char>| #[trigger] res.directives.to_map().dom().contains(k)
                ==> res.directives.to_map()[k]@.len() == 0,
    {
        let r1 = Self::new().geolocation(Vec::new());
        let r2 = r1.camera(Vec::new());
        let r3 = r2.microphone(Vec::new());
        let r4 = r3.payment(Vec::new());
        let r = r4.usb(Vec::new());
        proof {
            reveal_strlit("geolocation");
            reveal_strlit("camera");
            reveal_strlit("microphone");
            reveal_strlit("payment");
            reveal_strlit("usb");
            assert("geolocation"@.len() == 11);
            assert("camera"@.len() == 6);
            assert("microphone"@.len() == 10);
            assert("payment"@.len() == 7);
            assert("usb"@.len() == 3);
            assert(r.directives.to_map().dom() =~= set!["geolocation"@, "camera"@, "microphone"@, "payment"@, "usb"@]);
            assert forall|k: Seq<char>| #[trigger] r.directives.to_map().dom().contains(k)
                implies r.directives.to_map()[k]@.len() == 0 by {
                assert(views(r.directives.to_map()[k]@).len() == 0);
            }
        }
        r
    }

    /// Set directive.
    pub fn directive(self, name: &str, values: Vec<&str>) -> (res: Self)
        requires self.wf(),
        ensures self.sets(&res, name@, ref_views(values@)),
    {
        let mut c = self;
        let vals = to_strings(&values);
        c.directives.insert(owned(name), vals);
        c
    }

    /// Set geolocation permission.
    pub fn geolocation(self, values: Vec<&str>) -> (res: Self)
        requires self.wf(),
        ensures self.sets(&res, "geolocation"@, ref_views(values@)),
    {
        self.directive("geolocation", values)
    }

    /// Set camera permission.
    pub fn camera(self, values: Vec<&str>) -> (res: Self)
        requires self.wf(),
        ensures self.sets(&res, "camera"@, ref_views(values@)),
    {
        self.directive("camera", values)
    }

    /// Set microphone permission.
    pub fn microphone(self, values: Vec<&str>) -> (res: Self)
        requires self.wf(),
        ensures self.sets(&res, "microphone"@, ref_views(values@)),
    {
        self.directive("microphone", values)
    }

    /// Set payment permission.
    pub fn payment(self, values: Vec<&str>) -> (res: Self)
        requires self.wf(),
        ensures self.sets(&res, "payment"@, ref_views(values@)),
    {
        self.directive("payment", values)
    }

    /// Set USB permission.
    pub fn usb(self, values: Vec<&str>) -> (res: Self)
        requires self.wf(),
        ensures self.sets(&res, "usb"@, ref_views(values@)),
    {
        self.directive("usb", values)
    }

    /// Set fullscreen permission.
    pub fn fullscreen(self, values: Vec<&str>) -> (res: Self)
        requires self.wf(),
        ensures self.sets(&res, "fullscreen"@, ref_views(values@)),
    {
        self.directive("fullscreen", values)
    }

    /// Set autoplay permission.
    pub fn autoplay(self, values: Vec<&str>) -> (res: Self)
        requires self.wf(),
        ensures self.sets(&res, "autoplay"@, ref_views(values@)),
    {
        self.directive("autoplay", values)
    }

    /// Set picture-in-picture permission.
    pub fn picture_in_picture(self, values: Vec<&str>) -> (res: Self)
        requires self.wf(),
        ensures self.sets(&res, "picture-in-picture"@, ref_views(values@)),
    {
        self.directive("picture-in-picture", values)
    }

    /// Set accelerometer permission.
    pub fn accelerometer(self, values: Vec<&str>) -> (res: Self)
        requires self.wf(),
        ensures self.sets(&res, "accelerometer"@, ref_views(values@)),
    {
        self.directive("accelerometer", values)
    }

    /// Set gyroscope permission.
    pub fn gyroscope(self, values: Vec<&str>) -> (res: Self)
        requires self.wf(),
        ensures self.sets(&res, "gyroscope"@, ref_views(values@)),
    {
        self.directive("gyroscope", values)
    }

    /// Build header value: every feature in order, joined by `", "`.
    pub fn build(&self) -> (res: String)
        ensures
            res@ == self.value(),
    {
        let ghost entries = self.directives.entries@;
        let mut parts: Vec<String> = Vec::new();
        let mut i: usize = 0;
        while i < self.directives.entries.len()
            invariant
                i <= entries.len(),
                entries == self.directives.entries@,
                parts@.len() == i,
                forall|j: int| 0 <= j < i ==> #[trigger] parts@[j]@ == pp_part(entries[j].0@, views(entries[j].1@)),
            decreases entries.len() - i,
        {
            let name = &self.directives.entries[i].0;
            let values = &self.directives.entries[i].1;
            let mut p = name.clone();
            if values.len() == 0 {
                p.append("=()");
            } else {
                p.append("=(");
                let j = join_strings(values, " ");
                p.append(j.as_str());
                p.append(")");
            }
            parts.push(p);
            i = i + 1;
        }
        assert(views(parts@) =~= pp_parts(entries));
        join_strings(&parts, ", ")
    }
}

// ============================================================================
// Cross-Origin Policies
// ============================================================================

/// Cross-Origin-Embedder-Policy.
#[derive(Clone, Copy, Debug, PartialEq, Eq, Structural)]
pub enum CrossOriginEmbedderPolicy {
    UnsafeNone,
    RequireCorp,
    Credentialless,
}

impl CrossOriginEmbedderPolicy {
    /// The header value.
    pub open spec fn value(&self) -> Seq<char> {
        match self {
            CrossOriginEmbedderPolicy::UnsafeNone => "unsafe-none"@,
            CrossOriginEmbedderPolicy::RequireCorp => "require-corp"@,
            CrossOriginEmbedderPolicy::Credentialless => "credentialless"@,
        }
    }

    pub fn build(&self) -> (res: &'static str)
        ensures
            res@ == self.value(),
    {
        match self {
            CrossOriginEmbedderPolicy::UnsafeNone => "unsafe-none",
            CrossOriginEmbedderPolicy::RequireCorp => "require-corp",
            CrossOriginEmbedderPolicy::Credentialless => "credentialless",
        }
    }
}

/// Cross-Origin-Opener-Policy.
#[derive(Clone, Copy, Debug, PartialEq, Eq, Structural)]
pub enum CrossOriginOpenerPolicy {
    UnsafeNone,
    SameOrigin,
    SameOriginAllowPopups,
}

impl CrossOriginOpenerPolicy {
    /// The header value.
    pub open spec fn value(&self) -> Seq<char> {
        match self {
            CrossOriginOpenerPolicy::UnsafeNone => "unsafe-none"@,
            CrossOriginOpenerPolicy::SameOrigin => "same-origin"@,
            CrossOriginOpenerPolicy::SameOriginAllowPopups => "same-origin-allow-popups"@,
        }
    }

    pub fn build(&self) -> (res: &'static str)
        ensures
            res@ == self.value(),
    {
        match self {
            CrossOriginOpenerPolicy::UnsafeNone => "unsafe-none",
            CrossOriginOpenerPolicy::SameOrigin => "same-origin",
            CrossOriginOpenerPolicy::SameOriginAllowPopups => "same-origin-allow-popups",
        }
    }
}

/// Cross-Origin-Resource-Policy.
#[derive(Clone, Copy, Debug, PartialEq, Eq, Structural)]
pub enum CrossOriginResourcePolicy {
    SameSite,
    SameOrigin,
    CrossOrigin,
}

impl CrossOriginResourcePolicy {
    /// The header value.
    pub open spec fn value(&self) -> Seq<char> {
        match self {
            CrossOriginResourcePolicy::SameSite => "same-site"@,
            CrossOriginResourcePolicy::SameOrigin => "same-origin"@,
            CrossOriginResourcePolicy::CrossOrigin => "cross-origin"@,
        }
    }

    pub fn build(&self) -> (res: &'static str)
        ensures
            res@ == self.value(),
    {
        match self {
            CrossOriginResourcePolicy::SameSite => "same-site",
            CrossOriginResourcePolicy::SameOrigin => "same-origin",
            CrossOriginResourcePolicy::CrossOrigin => "cross-origin",
        }
    }
}

// ============================================================================
// Security Headers Middleware
// ============================================================================

/// Security headers middleware configuration.
pub struct SecurityHeadersMiddleware {
    /// Content Security Policy
    pub csp: Option<ContentSecurityPolicy>,
    /// Generate nonce for CSP
    pub csp_nonce: bool,
    /// HTTP Strict Transport Security
    pub hsts: Option<HstsConfig>,
    /// X-Frame-Options
    pub x_frame_options: Option<XFrameOptions>,
    /// X-Content-Type-Options: nosniff
    pub x_content_type_options: bool,
    /// X-XSS-Protection (deprecated but still useful)
    pub x_xss_protection: bool,
    /// Referrer-Policy
    pub referrer_policy: Option<ReferrerPolicy>,
    /// Permissions-Policy
    pub permissions_policy: Option<PermissionsPolicy>,
    /// Cross-Origin-Embedder-Policy
    pub coep: Option<CrossOriginEmbedderPolicy>,
    /// Cross-Origin-Opener-Policy
    pub coop: Option<CrossOriginOpenerPolicy>,
    /// Cross-Origin-Resource-Policy
    pub corp: Option<CrossOriginResourcePolicy>,
    /// Context key for storing nonce
    pub nonce_key: String,
}

/// One optional header: present with its value, or absent.
pub open spec fn opt_header(name: Seq<char>, value: Option<Seq<char>>) -> Seq<(Seq<char>, Seq<char>)> {
    match value {
        Some(v) => seq![(name, v)],
        None => Seq::empty(),
    }
}

/// The Content-Security-Policy header (or its report-only form), when a policy is set.
pub open spec fn csp_headers(csp: Option<ContentSecurityPolicy>, nonce: Option<Seq<char>>) -> Seq<(Seq<char>, Seq<char>)> {
    match csp {
        Some(c) => seq![(
            if c.report_only {
                "Content-Security-Policy-Report-Only"@
            } else {
                "Content-Security-Policy"@
            },
            csp_header(c, nonce),
        )],
        None => Seq::empty(),
    }
}

impl SecurityHeadersMiddleware {
    pub open spec fn wf(&self) -> bool {
        &&& self.csp matches Some(c) ==> c.wf()
        &&& self.permissions_policy matches Some(p) ==> p.wf()
    }

    /// The headers set on a response, in order, given the nonce generated for the request.
    pub open spec fn spec_headers(&self, nonce: Option<Seq<char>>) -> Seq<(Seq<char>, Seq<char>)> {
        csp_headers(self.csp, nonce)
            + opt_header("Strict-Transport-Security"@, match self.hsts {
                Some(h) => Some(h.value()),
                None => None,
            })
            + opt_header("X-Frame-Options"@, match self.x_frame_options {
                Some(x) => Some(x.value()),
                None => None,
            })
            + opt_header("X-Content-Type-Options"@, if self.x_content_type_options {
                Some("nosniff"@)
            } else {
                None
            })
            + opt_header("X-XSS-Protection"@, if self.x_xss_protection {
                Some("1; mode=block"@)
            } else {
                None
            })
            + opt_header("Referrer-Policy"@, match self.referrer_policy {
                Some(p) => Some(referrer_value(p)),
                None => None,
            })
            + opt_header("Permissions-Policy"@, match self.permissions_policy {
                Some(p) => Some(p.value()),
                None => None,
            })
            + opt_header("Cross-Origin-Embedder-Policy"@, match self.coep {
                Some(p) => Some(p.value()),
                None => None,
            })
            + opt_header("Cross-Origin-Opener-Policy"@, match self.coop {
                Some(p) => Some(p.value()),
                None => None,
            })
            + opt_header("Cross-Origin-Resource-Policy"@, match self.corp {
                Some(p) => Some(p.value()),
                None => None,
            })
    }

    /// Create new security headers middleware with sensible defaults.
    pub fn new() -> (res: Self)
        ensures
            res.wf(),
            res.csp is None,
            !res.csp_nonce,
            res.hsts == Some(HstsConfig { max_age: 31536000, include_subdomains: false, preload: false }),
            res.x_frame_options matches Some(x) && x is SameOrigin,
            res.x_content_type_options,
            res.x_xss_protection,
            res.referrer_policy == Some(ReferrerPolicy::StrictOriginWhenCrossOrigin),
            res.permissions_policy is None,
            res.coep is None,
            res.coop is None,
            res.corp is None,
            res.nonce_key@ == "csp_nonce"@,
    {
        SecurityHeadersMiddleware {
            csp: None,
            csp_nonce: false,
            hsts: Some(HstsConfig::default()),
            x_frame_options: Some(XFrameOptions::default()),
            x_content_type_options: true,
            x_xss_protection: true,
            referrer_policy: Some(ReferrerPolicy::default()),
            permissions_policy: None,
            coep: None,
            coop: None,
            corp: None,
            nonce_key: String::from_str("csp_nonce"),
        }
    }

    /// Create with strict settings.
    pub fn strict() -> (res: Self)
        ensures
            res.wf(),
            res.csp is Some,
            res.csp_nonce,
            res.hsts == Some(HstsConfig { max_age: 63072000, include_subdomains: true, preload: true }),
            res.x_frame_options matches Some(x) && x is Deny,
            res.x_content_type_options,
            res.x_xss_protection,
            res.referrer_policy == Some(ReferrerPolicy::NoReferrer),
            res.permissions_policy is Some,
            res.coep == Some(CrossOriginEmbedderPolicy::RequireCorp),
            res.coop == Some(CrossOriginOpenerPolicy::SameOrigin),
            res.corp == Some(CrossOriginResourcePolicy::SameOrigin),
            res.nonce_key@ == "csp_nonce"@,
    {
        SecurityHeadersMiddleware {
            csp: Some(ContentSecurityPolicy::strict()),
            csp_nonce: true,
            hsts: Some(HstsConfig::two_years().preload()),
            x_frame_options: Some(XFrameOptions::Deny),
            x_content_type_options: true,
            x_xss_protection: true,
            referrer_policy: Some(ReferrerPolicy::NoReferrer),
            permissions_policy: Some(PermissionsPolicy::restrictive()),
            coep: Some(CrossOriginEmbedderPolicy::RequireCorp),
            coop: Some(CrossOriginOpenerPolicy::SameOrigin),
            corp: Some(CrossOriginResourcePolicy::SameOrigin),
            nonce_key: String::from_str("csp_nonce"),
        }
    }

    /// Set CSP.
    pub fn csp(self, csp: ContentSecurityPolicy) -> (res: Self)
        ensures
            res == (SecurityHeadersMiddleware { csp: Some(csp), ..self }),
    {
        let mut c = self;
        c.csp = Some(csp);
        c
    }

    /// Enable CSP nonce generation.
    pub fn with_nonce(self) -> (res: Self)
        ensures
            res == (SecurityHeadersMiddleware { csp_nonce: true, ..self }),
    {
        let mut c = self;
        c.csp_nonce = true;
        c
    }

    /// Set HSTS.
    pub fn hsts(self, hsts: HstsConfig) -> (res: Self)
        ensures
            res == (SecurityHeadersMiddleware { hsts: Some(hsts), ..self }),
    {
        let mut c = self;
        c.hsts = Some(hsts);
        c
    }

    /// Disable HSTS.
    pub fn no_hsts(self) -> (res: Self)
        ensures
            res == (SecurityHeadersMiddleware { hsts: None, ..self }),
    {
        let mut c = self;
        c.hsts = None;
        c
    }

    /// Set X-Frame-Options.
    pub fn x_frame_options(self, options: XFrameOptions) -> (res: Self)
        ensures
            res == (SecurityHeadersMiddleware { x_frame_options: Some(options), ..self }),
    {
        let mut c = self;
        c.x_frame_options = Some(options);
        c
    }

    /// Disable X-Frame-Options.
    pub fn no_x_frame_options(self) -> (res: Self)
        ensures
            res == (SecurityHeadersMiddleware { x_frame_options: None, ..self }),
    {
        let mut c = self;
        c.x_frame_options = None;
        c
    }

    /// Enable/disable X-Content-Type-Options.
    pub fn x_content_type_options(self, enabled: bool) -> (res: Self)
        ensures
            res == (SecurityHeadersMiddleware { x_content_type_options: enabled, ..self }),
    {
        let mut c = self;
        c.x_content_type_options = enabled;
        c
    }

    /// Set Referrer-Policy.
    pub fn referrer_policy(self, policy: ReferrerPolicy) -> (res: Self)
        ensures
            res == (SecurityHeadersMiddleware { referrer_policy: Some(policy), ..self }),
    {
        let mut c = self;
        c.referrer_policy = Some(policy);
        c
    }

    /// Set Permissions-Policy.
    pub fn permissions_policy(self, policy: PermissionsPolicy) -> (res: Self)
        ensures
            res == (SecurityHeadersMiddleware { permissions_policy: Some(policy), ..self }),
    {
        let mut c = self;
        c.permissions_policy = Some(policy);
        c
    }

    /// Set Cross-Origin-Embedder-Policy.
    pub fn coep(self, policy: CrossOriginEmbedderPolicy) -> (res: Self)
        ensures
            res == (SecurityHeadersMiddleware { coep: Some(policy), ..self }),
    {
        let mut c = self;
        c.coep = Some(policy);
        c
    }

    /// Set Cross-Origin-Opener-Policy.
    pub fn coop(self, policy: CrossOriginOpenerPolicy) -> (res: Self)
        ensures
            res == (SecurityHeadersMiddleware { coop: Some(policy), ..self }),
    {
        let mut c = self;
        c.coop = Some(policy);
        c
    }

    /// Set Cross-Origin-Resource-Policy.
    pub fn corp(self, policy: CrossOriginResourcePolicy) -> (res: Self)
        ensures
            res == (SecurityHeadersMiddleware { corp: Some(policy), ..self }),
    {
        let mut c = self;
        c.corp = Some(policy);
        c
    }

    /// Set nonce context key.
    pub fn nonce_key(self, key: &str) -> (res: Self)
        ensures
            res.nonce_key@ == key@,
            res == (SecurityHeadersMiddleware { nonce_key: res.nonce_key, ..self }),
    {
        let mut c = self;
        c.nonce_key = owned(key);
        c
    }

    /// Whether a nonce is generated for each request (nonce enabled and a CSP set).
    pub fn needs_nonce(&self) -> (res: bool)
        ensures
            res == (self.csp_nonce && self.csp is Some),
    {
        self.csp_nonce && self.csp.is_some()
    }

    /// The headers to set on a response, in order, given the request's nonce.
    #[verifier::rlimit(50)]
    pub fn response_headers(&self, nonce: Option<&str>) -> (res: Vec<(String, String)>)
        ensures
            header_views(res@) == self.spec_headers(match nonce {
                Some(n) => Some(n@),
                None => None,
            }),
    {
        let ghost nv: Option<Seq<char>> = match nonce {
            Some(n) => Some(n@),
            None => None,
        };
        let mut out: Vec<(String, String)> = Vec::new();
        match &self.csp {
            Some(c) => {
                out.push((owned(c.header_name()), c.build(nonce)));
            },
            None => {},
        }
        assert(header_views(out@) =~= csp_headers(self.csp, nv));
        let v = match &self.hsts {
            Some(h) => Some(h.build()),
            None => None,
        };
        push_opt(&mut out, "Strict-Transport-Security", v);
        let v = match &self.x_frame_options {
            Some(x) => Some(x.build()),
            None => None,
        };
        push_opt(&mut out, "X-Frame-Options", v);
        let v = if self.x_content_type_options {
            Some(String::from_str("nosniff"))
        } else {
            None
        };
        push_opt(&mut out, "X-Content-Type-Options", v);
        let v = if self.x_xss_protection {
            Some(String::from_str("1; mode=block"))
        } else {
            None
        };
        push_opt(&mut out, "X-XSS-Protection", v);
        let v = match &self.referrer_policy {
            Some(p) => Some(owned(p.build())),
            None => None,
        };
        push_opt(&mut out, "Referrer-Policy", v);
        let v = match &self.permissions_policy {
            Some(p) => Some(p.build()),
            None => None,
        };
        push_opt(&mut out, "Permissions-Policy", v);
        let v = match &self.coep {
            Some(p) => Some(owned(p.build())),
            None => None,
        };
        push_opt(&mut out, "Cross-Origin-Embedder-Policy", v);
        let v = match &self.coop {
            Some(p) => Some(owned(p.build())),
            None => None,
        };
        push_opt(&mut out, "Cross-Origin-Opener-Policy", v);
        let v = match &self.corp {
            Some(p) => Some(owned(p.build())),
            None => None,
        };
        push_opt(&mut out, "Cross-Origin-Resource-Policy", v);
        out
    }
}

/// Appends the header `name` with the given value, when there is one.
fn push_opt(out: &mut Vec<(String, String)>, name: &str, value: Option<String>)
    ensures
        header_views(final(out)@) == header_views(old(out)@) + opt_header(name@, match value {
            Some(v) => Some(v@),
            None => None,
        }),
{
    match value {
        Some(v) => {
            out.push((owned(name), v));
        },
        None => {},
    }
    assert(header_views(out@) =~= header_views(old(out)@) + opt_header(name@, match value {
        Some(v) => Some(v@),
        None => None,
    }));
}

/// The Referrer-Policy header value.
pub open spec fn referrer_value(p: ReferrerPolicy) -> Seq<char> {
    match p {
        ReferrerPolicy::NoReferrer => "no-referrer"@,
        ReferrerPolicy::NoReferrerWhenDowngrade => "no-referrer-when-downgrade"@,
        ReferrerPolicy::Origin => "origin"@,
        ReferrerPolicy::OriginWhenCrossOrigin => "origin-when-cross-origin"@,
        ReferrerPolicy::SameOrigin => "same-origin"@,
        ReferrerPolicy::StrictOrigin => "strict-origin"@,
        ReferrerPolicy::StrictOriginWhenCrossOrigin => "strict-origin-when-cross-origin"@,
        ReferrerPolicy::UnsafeUrl => "unsafe-url"@,
    }
}

} // verus!
