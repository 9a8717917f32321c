//! Route selection beyond the path: header conditions, API versions taken from
//! the `Accept` header, and route metadata.
use vstd::prelude::*;
use crate::strmap::StrMap;
use crate::router::{
    count_open_braces, matchit_at, matchit_insert, matchit_insert_error, matchit_lookup, matchit_new, matchit_routes, pair_views,
    pairs_map, too_many_params,
};
use matchit::Router as RadixTree;
use crate::text::{
    ascii_lower, chars_of, contains_sub, dec, eq_ignore_ascii_case, is_prefix, owned, parse_uint, split_char,
    split_str, str_contains, str_starts_with, str_trim, strip_prefix_all, to_lowercase, trim,
    trim_start_matches, unicode_lowercase,
};

verus! {

// ============================================================================
// Regular expressions
// ============================================================================

#[verifier::external_type_specification]
#[verifier::external_body]
pub struct ExRegex(regex::Regex);

/// The name of `regex::Regex::new`: whether a pattern compiles.
pub uninterp spec fn regex_compiles(pattern: Seq<char>) -> bool;

/// The name of `regex::Regex::is_match`: whether the compiled pattern matches
/// somewhere in the text.
pub uninterp spec fn regex_is_match(pattern: Seq<char>, text: Seq<char>) -> bool;

/// The name of `regex::Regex::captures` followed by `get(1)`: the text of the
/// first group of the leftmost match, if the pattern matches and the group
/// took part.
pub uninterp spec fn regex_first_group(pattern: Seq<char>, text: Seq<char>) -> Option<Seq<char>>;

/// The name of `regex::Regex::replace_all`: the text with every match replaced
/// by the replacement, `$n` standing for group `n`.
pub uninterp spec fn regex_replaced(pattern: Seq<char>, text: Seq<char>, replacement: Seq<char>) -> Seq<char>;

/// `regex::Regex::new`, with the error dropped.
#[verifier::external_body]
fn regex_new(pattern: &str) -> (res: Option<regex::Regex>)
    ensures
        res is Some <==> regex_compiles(pattern@),
{
    regex::Regex::new(pattern).ok()
}

/// A compiled regular expression with the pattern it was compiled from.
pub struct RegexPattern {
    source: String,
    compiled: regex::Regex,
}

impl RegexPattern {
    /// The pattern's text.
    pub closed spec fn pattern(&self) -> Seq<char> {
        self.source@
    }

    /// Compile a pattern; nothing when it does not compile.
    pub fn new(pattern: &str) -> (res: Option<Self>)
        ensures
            res is Some <==> regex_compiles(pattern@),
            res matches Some(r) ==> r.pattern() == pattern@,
    {
        match regex_new(pattern) {
            Some(compiled) => Some(RegexPattern { source: owned(pattern), compiled }),
            None => None,
        }
    }

    /// The pattern's text.
    pub fn as_str(&self) -> (res: &str)
        ensures
            res@ == self.pattern(),
    {
        self.source.as_str()
    }

    /// `regex::Regex::is_match` on the compiled pattern.
    #[verifier::external_body]
    fn matches_text(&self, text: &str) -> (res: bool)
        ensures
            res == regex_is_match(self.pattern(), text@),
    {
        self.compiled.is_match(text)
    }
}

/// The first group of the leftmost match of `pattern` in `text`; nothing when
/// the pattern does not compile or does not match.
#[verifier::external_body]
fn regex_capture(pattern: &str, text: &str) -> (res: Option<String>)
    ensures
        !regex_compiles(pattern@) ==> res is None,
        regex_compiles(pattern@) ==> match regex_first_group(pattern@, text@) {
            Some(g) => res matches Some(r) && r@ == g,
            None => res is None,
        },
{
    match regex::Regex::new(pattern) {
        Ok(re) => re.captures(text).and_then(|c| c.get(1)).map(|m| m.as_str().to_string()),
        Err(_) => None,
    }
}

/// Every match of `pattern` in `text` replaced; nothing when the pattern does
/// not compile.
#[verifier::external_body]
fn regex_replace_all(pattern: &str, text: &str, replacement: &str) -> (res: Option<String>)
    ensures
        res is Some <==> regex_compiles(pattern@),
        res matches Some(r) ==> r@ == regex_replaced(pattern@, text@, replacement@),
{
    match regex::Regex::new(pattern) {
        Ok(re) => Some(re.replace_all(text, replacement).to_string()),
        Err(_) => None,
    }
}

// ============================================================================
// Header conditions
// ============================================================================

/// A condition on one header's value.
pub enum HeaderMatchType {
    /// Equal, ignoring ASCII case.
    Exact(String),
    /// Starts with, both lowercased.
    Prefix(String),
    /// Contains, both lowercased.
    Contains(String),
    /// The pattern matches somewhere.
    Regex(RegexPattern),
    /// The header is there (any value).
    Present,
    /// The header is not there.
    Absent,
}

/// Whether a header value (or its absence) meets a condition.
pub open spec fn header_condition(m: HeaderMatchType, value: Option<Seq<char>>) -> bool {
    match m {
        HeaderMatchType::Exact(e) => value matches Some(v) && ascii_lower(v) == ascii_lower(e@),
        HeaderMatchType::Prefix(p) => value matches Some(v) && is_prefix(unicode_lowercase(p@), unicode_lowercase(v)),
        HeaderMatchType::Contains(c) => value matches Some(v) && contains_sub(unicode_lowercase(v), unicode_lowercase(c@)),
        HeaderMatchType::Regex(r) => value matches Some(v) && regex_is_match(r.pattern(), v),
        HeaderMatchType::Present => value is Some,
        HeaderMatchType::Absent => value is None,
    }
}

/// The view of an optional string slice.
pub open spec fn opt_view(o: Option<&str>) -> Option<Seq<char>> {
    match o {
        Some(s) => Some(s@),
        None => None,
    }
}

impl HeaderMatchType {
    /// Whether a header value (or its absence) meets this condition.
    pub fn matches(&self, value: Option<&str>) -> (res: bool)
        ensures
            res == header_condition(*self, opt_view(value)),
    {
        match self {
            HeaderMatchType::Exact(expected) => match value {
                Some(v) => eq_ignore_ascii_case(v, expected.as_str()),
                None => false,
            },
            HeaderMatchType::Prefix(prefix) => match value {
                Some(v) => {
                    let lv = to_lowercase(v);
                    let lp = to_lowercase(prefix.as_str());
                    str_starts_with(lv.as_str(), lp.as_str())
                },
                None => false,
            },
            HeaderMatchType::Contains(sub) => match value {
                Some(v) => {
                    let lv = to_lowercase(v);
                    let ls = to_lowercase(sub.as_str());
                    str_contains(lv.as_str(), ls.as_str())
                },
                None => false,
            },
            HeaderMatchType::Regex(re) => match value {
                Some(v) => re.matches_text(v),
                None => false,
            },
            HeaderMatchType::Present => value.is_some(),
            HeaderMatchType::Absent => value.is_none(),
        }
    }
}

/// A condition on a named header.
pub struct HeaderMatcher {
    /// The header's name, in lowercase.
    pub header: String,
    pub matcher: HeaderMatchType,
}

/// The value under `key` in a map of strings.
pub open spec fn value_of(m: StrMap<String>, key: Seq<char>) -> Option<Seq<char>> {
    if m.to_map().dom().contains(key) {
        Some(m.to_map()[key]@)
    } else {
        None
    }
}

impl HeaderMatcher {
    /// A condition on the header `header` (its name lowercased).
    pub fn new(header: &str, matcher: HeaderMatchType) -> (res: Self)
        ensures
            res.header@ == unicode_lowercase(header@),
            crate::text::all_ascii(header@) ==> res.header@ == ascii_lower(header@),
            res.matcher == matcher,
    {
        HeaderMatcher { header: to_lowercase(header), matcher }
    }

    /// Whether the headers meet the condition.
    pub fn matches(&self, headers: &StrMap<String>) -> (res: bool)
        requires
            headers.wf(),
        ensures
            res == header_condition(self.matcher, value_of(*headers, self.header@)),
    {
        match headers.get(self.header.as_str()) {
            Some(v) => self.matcher.matches(Some(v.as_str())),
            None => self.matcher.matches(None),
        }
    }

    /// `accept` contains `content_type`, ignoring case.
    pub fn accept(content_type: &str) -> (res: Self)
        ensures
            res.header@ == "accept"@,
            res.matcher matches HeaderMatchType::Contains(c) && c@ == content_type@,
    {
        let h = HeaderMatcher::new("accept", HeaderMatchType::Contains(owned(content_type)));
        proof {
            reveal_strlit("accept");
            assert(crate::text::all_ascii("accept"@));
            assert(ascii_lower("accept"@) =~= "accept"@);
        }
        h
    }

    /// `content-type` contains `content_type`, ignoring case.
    pub fn content_type(content_type: &str) -> (res: Self)
        ensures
            res.header@ == "content-type"@,
            res.matcher matches HeaderMatchType::Contains(c) && c@ == content_type@,
    {
        let h = HeaderMatcher::new("content-type", HeaderMatchType::Contains(owned(content_type)));
        proof {
            reveal_strlit("content-type");
            assert(crate::text::all_ascii("content-type"@));
            assert(ascii_lower("content-type"@) =~= "content-type"@);
        }
        h
    }
}

// ============================================================================
// API versions
// ============================================================================

/// An API version: a major number and, maybe, a minor one.
#[derive(Clone, Copy, Debug, PartialEq, Eq, Structural)]
pub struct ApiVersion {
    pub major: u8,
    pub minor: Option<u8>,
}

/// The version a string like `1.0`, `2` or `v1.2` names: after trimming and
/// dropping leading `v`s and then leading `V`s, a major number and, after a
/// dot, a minor one (left out when it is not a number).
pub open spec fn version_of(s: Seq<char>) -> Option<ApiVersion> {
    let t = strip_prefix_all(strip_prefix_all(trim(s), seq!['v']), seq!['V']);
    let parts = split_char(t, '.');
    match parse_uint(parts[0], 255) {
        None => None,
        Some(major) => Some(ApiVersion {
            major: major as u8,
            minor: if parts.len() > 1 {
                match parse_uint(parts[1], 255) {
                    Some(m) => Some(m as u8),
                    None => None,
                }
            } else {
                None
            },
        }),
    }
}

/// The index of the first piece that mentions `version`.
pub open spec fn version_piece(pieces: Seq<Seq<char>>) -> Option<int>
    decreases pieces.len(),
{
    if pieces.len() == 0 {
        None
    } else if contains_sub(pieces[0], "version"@) {
        Some(0)
    } else {
        match version_piece(pieces.drop_first()) {
            Some(i) => Some(i + 1),
            None => None,
        }
    }
}

/// The pattern for versions written into a media type, as in `.v2+json`.
pub const MEDIA_VERSION_PATTERN: &'static str = r"\.v(\d+(?:\.\d+)?)";

/// The version an `Accept` header asks for: the value after `=` in the first
/// `;`-separated piece that mentions `version`, else a version written into
/// the media type as `.v<number>`.
pub open spec fn accept_version(accept: Seq<char>) -> Option<ApiVersion> {
    let pieces = split_char(accept, ';');
    let by_param = match version_piece(pieces) {
        Some(k) => {
            let eqs = split_char(pieces[k], '=');
            if eqs.len() > 1 { Some(version_of(trim(eqs[1]))) } else { None }
        },
        None => None,
    };
    match by_param {
        Some(v) => v,
        None => if regex_compiles(MEDIA_VERSION_PATTERN@) {
            match regex_first_group(MEDIA_VERSION_PATTERN@, accept) {
                Some(g) => version_of(g),
                None => None,
            }
        } else {
            None
        },
    }
}

/// `str::parse::<u8>()`.
fn parse_u8(s: &str) -> (res: Option<u8>)
    ensures
        match parse_uint(s@, 255) {
            Some(n) => res == Some(n as u8),
            None => res is None,
        },
{
    let v = chars_of(s);
    assert(v@.subrange(0, v@.len() as int) =~= v@);
    match crate::text::parse_uint_range(&v, 0, v.len(), 255) {
        Some(n) => Some(n as u8),
        None => None,
    }
}

impl ApiVersion {
    pub fn new(major: u8, minor: Option<u8>) -> (res: Self)
        ensures
            res == (ApiVersion { major, minor }),
    {
        ApiVersion { major, minor }
    }

    /// Parse a version like `1.0`, `2` or `v1.2`.
    pub fn parse(s: &str) -> (res: Option<Self>)
        ensures
            res == version_of(s@),
    {
        let t = str_trim(s);
        let a = trim_start_matches(t.as_str(), "v");
        let b = trim_start_matches(a, "V");
        proof {
            reveal_strlit("v");
            reveal_strlit("V");
            assert("v"@ =~= seq!['v']);
            assert("V"@ =~= seq!['V']);
        }
        let parts = split_str(b, '.');
        assert(parts@[0]@ == crate::text::views(parts@)[0]);
        let major = match parse_u8(parts[0].as_str()) {
            Some(m) => m,
            None => return None,
        };
        let minor = if parts.len() > 1 {
            assert(parts@[1]@ == crate::text::views(parts@)[1]);
            parse_u8(parts[1].as_str())
        } else {
            None
        };
        Some(ApiVersion { major, minor })
    }

    /// The version an `Accept` header asks for.
    pub fn from_accept_header(accept: &str) -> (res: Option<Self>)
        ensures
            res == accept_version(accept@),
    {
        let pieces = split_str(accept, ';');
        let ghost ps = crate::text::views(pieces@);
        let mut i: usize = 0;
        let mut stop = false;
        assert(ps.subrange(0, ps.len() as int) =~= ps);
        while i < pieces.len() && !stop
            invariant
                i <= pieces@.len(),
                ps == crate::text::views(pieces@),
                ps == split_char(accept@, ';'),
                stop ==> i < ps.len() && version_piece(ps) == Some(i as int) && split_char(ps[i as int], '=').len() <= 1,
                !stop ==> version_piece(ps) == match version_piece(ps.subrange(i as int, ps.len() as int)) {
                    Some(k) => Some(k + i),
                    None => None::<int>,
                },
            decreases pieces.len() - i + (if stop { 0int } else { 1int }),
        {
            let ghost rest = ps.subrange(i as int, ps.len() as int);
            assert(rest[0] == pieces@[i as int]@);
            assert(rest.drop_first() =~= ps.subrange(i as int + 1, ps.len() as int));
            if str_contains(pieces[i].as_str(), "version") {
                assert(version_piece(ps) == Some(i as int));
                let eqs = split_str(pieces[i].as_str(), '=');
                if eqs.len() > 1 {
                    assert(eqs@[1]@ == crate::text::views(eqs@)[1]);
                    let v = str_trim(eqs[1].as_str());
                    return ApiVersion::parse(v.as_str());
                }
                stop = true;
            } else {
                i = i + 1;
            }
        }
        proof {
            if !stop {
                assert(ps.subrange(i as int, ps.len() as int) =~= Seq::<Seq<char>>::empty());
            }
        }
        match regex_capture(MEDIA_VERSION_PATTERN, accept) {
            Some(g) => ApiVersion::parse(g.as_str()),
            None => None,
        }
    }

    /// Whether two versions agree: the same major number, and the same minor
    /// number when both have one.
    pub fn matches(&self, other: &Self) -> (res: bool)
        ensures
            res == (self.major == other.major && match (self.minor, other.minor) {
                (Some(a), Some(b)) => a == b,
                _ => true,
            }),
    {
        if self.major != other.major {
            return false;
        }
        match (self.minor, other.minor) {
            (Some(a), Some(b)) => a == b,
            _ => true,
        }
    }

    /// The version as text: `1.2`, or `1` without a minor number.
    pub fn to_string(&self) -> (res: String)
        ensures
            res@ == match self.minor {
                Some(m) => dec(self.major as nat) + "."@ + dec(m as nat),
                None => dec(self.major as nat),
            },
    {
        let mut s = crate::text::u64_to_string(self.major as u64);
        match self.minor {
            Some(m) => {
                s.append(".");
                crate::text::append_u64(&mut s, m as u64);
            },
            None => {},
        }
        s
    }
}

// ============================================================================
// Route metadata
// ============================================================================

/// What a route asks of a request besides its path, and how it is run.
pub struct RouteMetadata {
    pub handler_id: usize,
    pub header_matchers: Vec<HeaderMatcher>,
    pub version: Option<ApiVersion>,
    /// Higher is checked first.
    pub priority: i32,
    pub timeout_ms: Option<u64>,
    pub max_body_size: Option<usize>,
    pub rate_limit_key: Option<String>,
    pub skip_hooks: bool,
}

/// Whether a route's version requirement admits the request's version.
pub open spec fn version_admits(route: Option<ApiVersion>, request: Option<ApiVersion>) -> bool {
    match (route, request) {
        (Some(r), Some(q)) => r.major == q.major && match (r.minor, q.minor) {
            (Some(a), Some(b)) => a == b,
            _ => true,
        },
        (Some(_), None) => false,
        (None, _) => true,
    }
}

impl RouteMetadata {
    /// Metadata for a handler, with no conditions.
    pub fn new(handler_id: usize) -> (res: Self)
        ensures
            res.handler_id == handler_id,
            res.header_matchers@.len() == 0,
            res.version is None,
            res.priority == 0,
            res.timeout_ms is None,
            res.max_body_size is None,
            res.rate_limit_key is None,
            !res.skip_hooks,
    {
        RouteMetadata {
            handler_id,
            header_matchers: Vec::new(),
            version: None,
            priority: 0,
            timeout_ms: None,
            max_body_size: None,
            rate_limit_key: None,
            skip_hooks: false,
        }
    }

    /// Add a header condition.
    pub fn with_header(self, matcher: HeaderMatcher) -> (res: Self)
        ensures
            res.header_matchers@ == self.header_matchers@.push(matcher),
            res.handler_id == self.handler_id,
            res.version == self.version,
            res.priority == self.priority,
    {
        let mut m = self;
        m.header_matchers.push(matcher);
        m
    }

    /// Require a version.
    pub fn with_version(self, version: ApiVersion) -> (res: Self)
        ensures
            res.version == Some(version),
            res.handler_id == self.handler_id,
            res.header_matchers == self.header_matchers,
            res.priority == self.priority,
    {
        let mut m = self;
        m.version = Some(version);
        m
    }

    /// Set the priority.
    pub fn with_priority(self, priority: i32) -> (res: Self)
        ensures
            res.priority == priority,
            res.handler_id == self.handler_id,
            res.header_matchers == self.header_matchers,
            res.version == self.version,
    {
        let mut m = self;
        m.priority = priority;
        m
    }

    /// Set the handler's time limit.
    pub fn with_timeout(self, ms: u64) -> (res: Self)
        ensures
            res.timeout_ms == Some(ms),
            res.handler_id == self.handler_id,
            res.header_matchers == self.header_matchers,
            res.version == self.version,
            res.priority == self.priority,
    {
        let mut m = self;
        m.timeout_ms = Some(ms);
        m
    }

    /// Whether the headers meet every header condition.
    pub fn validate_headers(&self, headers: &StrMap<String>) -> (res: bool)
        requires
            headers.wf(),
        ensures
            res == forall|i: int| 0 <= i < self.header_matchers@.len() ==> header_condition(
                (#[trigger] self.header_matchers@[i]).matcher,
                value_of(*headers, self.header_matchers@[i].header@),
            ),
    {
        let mut i: usize = 0;
        while i < self.header_matchers.len()
            invariant
                headers.wf(),
                i <= self.header_matchers@.len(),
                forall|j: int| 0 <= j < i ==> header_condition(
                    (#[trigger] self.header_matchers@[j]).matcher,
                    value_of(*headers, self.header_matchers@[j].header@),
                ),
            decreases self.header_matchers.len() - i,
        {
            if !self.header_matchers[i].matches(headers) {
                return false;
            }
            i = i + 1;
        }
        true
    }

    /// Whether the route's version requirement admits the request's version.
    pub fn validate_version(&self, request_version: Option<&ApiVersion>) -> (res: bool)
        ensures
            res == version_admits(self.version, match request_version {
                Some(v) => Some(*v),
                None => None,
            }),
    {
        match (&self.version, request_version) {
            (Some(route_version), Some(req_version)) => route_version.matches(req_version),
            (Some(_), None) => false,
            (None, _) => true,
        }
    }
}

/// The pattern of a typed path parameter, `{name:type}` or `{name}`.
pub const TYPED_PARAM_PATTERN: &'static str = r"\{([^}:]+)(?::[^}]+)?\}";

/// A path with typed parameters `{name:type}` reduced to `{name}`.
pub open spec fn plain_path(path: Seq<char>) -> Seq<char> {
    if regex_compiles(TYPED_PARAM_PATTERN@) {
        regex_replaced(TYPED_PARAM_PATTERN@, path, "{$1}"@)
    } else {
        path
    }
}

/// Reduce typed parameters `{name:type}` of a route path to `{name}` (the
/// type is checked apart from the path).
pub fn convert_path(path: &str) -> (res: String)
    ensures
        res@ == plain_path(path@),
{
    match regex_replace_all(TYPED_PARAM_PATTERN, path, "{$1}") {
        Some(p) => p,
        None => owned(path),
    }
}

// ============================================================================
// Router with conditions
// ============================================================================

/// A route found with its conditions met.
pub struct AdvancedRouteMatch {
    pub handler_id: usize,
    pub params: StrMap<String>,
    pub matched_version: Option<ApiVersion>,
    /// Where the route's metadata is kept in the router (`AdvancedRouter::metadata_at`).
    pub metadata_index: usize,
}

/// A router whose routes carry conditions on headers and API version. Each
/// path pattern of a method leads to a list of candidate routes, highest
/// priority first; the first whose conditions hold is taken.
pub struct AdvancedRouter {
    /// One radix tree per method (uppercase); its values index `lists`.
    pub method_routers: StrMap<RadixTree<usize>>,
    /// Candidate lists; their entries index `metadata`.
    pub lists: Vec<Vec<usize>>,
    pub metadata: Vec<RouteMetadata>,
    pub catch_all: Option<usize>,
    pub is_compiled: bool,
}

/// Whether a route's header conditions hold.
pub open spec fn headers_hold(m: RouteMetadata, headers: StrMap<String>) -> bool {
    forall|i: int| 0 <= i < m.header_matchers@.len() ==> header_condition(
        (#[trigger] m.header_matchers@[i]).matcher,
        value_of(headers, m.header_matchers@[i].header@),
    )
}

/// The first candidate whose conditions hold.
pub open spec fn first_fit(meta: Seq<RouteMetadata>, list: Seq<usize>, headers: StrMap<String>, version: Option<ApiVersion>) -> Option<int>
    decreases list.len(),
{
    if list.len() == 0 {
        None
    } else if headers_hold(meta[list[0] as int], headers) && version_admits(meta[list[0] as int].version, version) {
        Some(0)
    } else {
        match first_fit(meta, list.drop_first(), headers, version) {
            Some(j) => Some(j + 1),
            None => None,
        }
    }
}

/// Where a candidate of priority `p` goes in a list kept highest first: after
/// every candidate of priority `p` or higher.
pub open spec fn desc_slot(meta: Seq<RouteMetadata>, list: Seq<usize>, p: i32) -> int
    decreases list.len(),
{
    if list.len() == 0 || meta[list[0] as int].priority < p {
        0
    } else {
        1 + desc_slot(meta, list.drop_first(), p)
    }
}

/// The slot lies within the list.
proof fn lemma_desc_slot_bound(meta: Seq<RouteMetadata>, list: Seq<usize>, p: i32)
    ensures
        0 <= desc_slot(meta, list, p) <= list.len(),
    decreases list.len(),
{
    if list.len() > 0 && meta[list[0] as int].priority >= p {
        lemma_desc_slot_bound(meta, list.drop_first(), p);
    }
}

/// The slot only reads the metadata the list points at.
proof fn lemma_desc_slot_prefix(meta0: Seq<RouteMetadata>, meta1: Seq<RouteMetadata>, list: Seq<usize>, p: i32)
    requires
        meta0.len() <= meta1.len(),
        forall|i: int| 0 <= i < meta0.len() ==> meta0[i] == meta1[i],
        forall|j: int| 0 <= j < list.len() ==> (#[trigger] list[j]) < meta0.len(),
    ensures
        desc_slot(meta0, list, p) == desc_slot(meta1, list, p),
    decreases list.len(),
{
    if list.len() > 0 {
        assert(list[0] < meta0.len());
        let t = list.drop_first();
        assert forall|j: int| 0 <= j < t.len() implies (#[trigger] t[j]) < meta0.len() by {
            assert(t[j] == list[j + 1]);
        }
        lemma_desc_slot_prefix(meta0, meta1, t, p);
    }
}

/// A list is kept highest priority first.
pub open spec fn by_priority_desc(meta: Seq<RouteMetadata>, list: Seq<usize>) -> bool {
    forall|a: int, b: int| 0 <= a < b < list.len() ==> meta[list[a] as int].priority >= meta[list[b] as int].priority
}

impl AdvancedRouter {
    /// For each method, the routes offered to its tree.
    pub open spec fn table(&self) -> Map<Seq<char>, Seq<(Seq<char>, usize)>> {
        self.method_routers.to_map().map_values(|r: RadixTree<usize>| matchit_routes(r))
    }

    /// The routes offered for a method so far.
    pub open spec fn offered(&self, method: Seq<char>) -> Seq<(Seq<char>, usize)> {
        if self.table().dom().contains(method) { self.table()[method] } else { Seq::empty() }
    }

    /// Every index leads somewhere and every list is in order of priority.
    pub open spec fn wf(&self) -> bool {
        &&& self.method_routers.wf()
        &&& forall|m: Seq<char>, i: int| #[trigger] self.table().dom().contains(m) && 0 <= i < self.table()[m].len()
            ==> (#[trigger] self.table()[m][i]).1 < self.lists@.len()
        &&& forall|l: int, j: int| 0 <= l < self.lists@.len() && 0 <= j < self.lists@[l]@.len()
            ==> (#[trigger] self.lists@[l]@[j]) < self.metadata@.len()
        &&& forall|l: int| 0 <= l < self.lists@.len() ==> by_priority_desc(self.metadata@, #[trigger] self.lists@[l]@)
        &&& self.catch_all matches Some(c) ==> c < self.metadata@.len()
    }

    /// An empty router.
    pub fn new() -> (res: Self)
        ensures
            res.wf(),
            res.table() == Map::<Seq<char>, Seq<(Seq<char>, usize)>>::empty(),
            res.metadata@.len() == 0,
            res.catch_all is None,
            !res.is_compiled,
    {
        let r = AdvancedRouter { method_routers: StrMap::new(), lists: Vec::new(), metadata: Vec::new(), catch_all: None, is_compiled: false };
        assert(r.table() =~= Map::<Seq<char>, Seq<(Seq<char>, usize)>>::empty());
        r
    }

    /// The metadata kept at an index.
    pub fn metadata_at(&self, i: usize) -> (res: &RouteMetadata)
        requires
            i < self.metadata@.len(),
        ensures
            *res == self.metadata@[i as int],
    {
        &self.metadata[i]
    }

    /// The route for requests that match no path.
    pub fn set_catch_all(&mut self, metadata: RouteMetadata)
        requires
            old(self).wf(),
        ensures
            final(self).wf(),
            final(self).metadata@ == old(self).metadata@.push(metadata),
            final(self).catch_all == Some(old(self).metadata@.len() as usize),
            final(self).table() == old(self).table(),
            final(self).lists == old(self).lists,
    {
        let i = self.metadata.len();
        self.metadata.push(metadata);
        self.catch_all = Some(i);
        assert(self.table() == old(self).table());
        assert forall|l: int, j: int| 0 <= l < self.lists@.len() && 0 <= j < self.lists@[l]@.len()
            implies (#[trigger] self.lists@[l]@[j]) < self.metadata@.len() by {
            assert(old(self).lists@[l]@[j] < old(self).metadata@.len());
        }
        assert forall|l: int| 0 <= l < self.lists@.len() implies by_priority_desc(self.metadata@, #[trigger] self.lists@[l]@) by {
            assert forall|a: int, b: int| 0 <= a < b < self.lists@[l]@.len() implies
                self.metadata@[self.lists@[l]@[a] as int].priority >= self.metadata@[self.lists@[l]@[b] as int].priority by {
                assert(old(self).lists@[l]@[a] < old(self).metadata@.len());
                assert(old(self).lists@[l]@[b] < old(self).metadata@.len());
            }
        }
    }

    /// The routes' lookup is fixed (nothing more is prepared).
    pub fn compile(&mut self)
        ensures
            *final(self) == (AdvancedRouter { is_compiled: true, ..*old(self) }),
    {
        self.is_compiled = true;
    }
}

/// The map of path parameters, built from pairs as they come.
fn params_map(ps: &Vec<(String, String)>) -> (res: StrMap<String>)
    ensures
        res.wf(),
        res.to_map().map_values(|v: String| v@) == pairs_map(pair_views(ps@)),
{
    let mut params: StrMap<String> = StrMap::new();
    let mut i: usize = 0;
    assert(params.to_map().map_values(|v: String| v@) =~= pairs_map(pair_views(ps@).subrange(0, 0)));
    while i < ps.len()
        invariant
            i <= ps@.len(),
            params.wf(),
            params.to_map().map_values(|v: String| v@) == pairs_map(pair_views(ps@).subrange(0, i as int)),
        decreases ps.len() - i,
    {
        params.insert(ps[i].0.clone(), ps[i].1.clone());
        assert(pair_views(ps@).subrange(0, i as int + 1).drop_last() =~= pair_views(ps@).subrange(0, i as int));
        assert(params.to_map().map_values(|v: String| v@) =~= pairs_map(pair_views(ps@).subrange(0, i as int + 1)));
        i = i + 1;
    }
    assert(pair_views(ps@).subrange(0, ps@.len() as int) =~= pair_views(ps@));
    params
}

impl AdvancedRouter {
    /// Offer a route to the tree of method `m`, making the tree if needed.
    fn offer(&mut self, m: String, route: &str, value: usize) -> (res: Result<(), String>)
        requires
            old(self).method_routers.wf(),
            !too_many_params(route@),
        ensures
            final(self).method_routers.wf(),
            final(self).table() == old(self).table().insert(m@, old(self).offered(m@).push((route@, value))),
            match matchit_insert_error(old(self).offered(m@), route@) {
                None => res is Ok,
                Some(e) => res matches Err(x) && x@ == e,
            },
            final(self).lists == old(self).lists,
            final(self).metadata == old(self).metadata,
            final(self).catch_all == old(self).catch_all,
            final(self).is_compiled == old(self).is_compiled,
    {
        let ghost before = self.method_routers.seq();
        proof {
            self.method_routers.lemma_len();
        }
        match self.method_routers.index_of(m.as_str()) {
            Some(i) => {
                proof {
                    crate::strmap::lemma_map_of_at(before, i as int);
                }
                let (key, mut tree) = self.method_routers.entries.remove(i);
                let r = matchit_insert(&mut tree, route, value);
                let ghost t = tree;
                self.method_routers.entries.insert(i, (key, tree));
                assert(self.method_routers.seq() =~= before.update(i as int, (key, t)));
                proof {
                    assert(crate::strmap::unique_keys(self.method_routers.seq())) by {
                        let s1 = self.method_routers.seq();
                        assert forall|a: int, b: int| 0 <= a < b < s1.len() implies s1[a].0@ != s1[b].0@ by {
                            if a == i as int {
                                assert(before[b].0@ != before[a].0@);
                            } else if b == i as int {
                                assert(before[a].0@ != before[b].0@);
                            }
                        }
                    }
                    crate::strmap::lemma_map_of_update(before, i as int, key, t);
                    assert(self.table() =~= old(self).table().insert(m@, old(self).offered(m@).push((route@, value))));
                }
                r
            },
            None => {
                assert(!old(self).table().dom().contains(m@));
                let mut tree = matchit_new();
                let r = matchit_insert(&mut tree, route, value);
                self.method_routers.insert(m, tree);
                assert(old(self).offered(m@) =~= Seq::<(Seq<char>, usize)>::empty());
                assert(self.table() =~= old(self).table().insert(m@, old(self).offered(m@).push((route@, value))));
                r
            },
        }
    }

    /// A router that gained one list, one metadata entry and one offered route
    /// pointing at the new list keeps its indices in range.
    proof fn lemma_wf_after_add(&self, before: AdvancedRouter, m: Seq<char>, prior: Seq<(Seq<char>, usize)>, route: Seq<char>, l: usize)
        requires
            before.wf(),
            self.method_routers.wf(),
            prior == before.offered(m),
            l == before.lists@.len(),
            self.lists@.len() == l + 1,
            self.lists@.drop_last() == before.lists@,
            self.metadata@.len() == before.metadata@.len() + 1,
            self.catch_all == before.catch_all,
            self.table() == before.table().insert(m, prior.push((route, l))),
            forall|j: int| 0 <= j < self.lists@[l as int]@.len() ==> (#[trigger] self.lists@[l as int]@[j]) < self.metadata@.len(),
            forall|li: int| 0 <= li < self.lists@.len() ==> by_priority_desc(self.metadata@, #[trigger] self.lists@[li]@),
        ensures
            self.wf(),
    {
        assert forall|mm: Seq<char>, i: int| #[trigger] self.table().dom().contains(mm) && 0 <= i < self.table()[mm].len()
            implies (#[trigger] self.table()[mm][i]).1 < self.lists@.len() by {
            if mm == m {
                if i < prior.len() as int {
                    if before.table().dom().contains(m) {
                        assert(prior[i] == before.table()[m][i]);
                    }
                    assert(self.table()[mm][i] == prior[i]);
                }
            } else {
                assert(self.table()[mm] == before.table()[mm]);
            }
        }
        assert forall|li: int, j: int| 0 <= li < self.lists@.len() && 0 <= j < self.lists@[li]@.len()
            implies (#[trigger] self.lists@[li]@[j]) < self.metadata@.len() by {
            if li < l as int {
                assert(self.lists@[li] == before.lists@[li]);
            }
        }
    }

    /// The candidate list `list` with metadata `n` (of priority `p`) added
    /// after every candidate of priority `p` or higher.
    fn with_candidate(&self, list: &Vec<usize>, n: usize, p: i32) -> (res: Vec<usize>)
        requires
            by_priority_desc(self.metadata@, list@),
            forall|j: int| 0 <= j < list@.len() ==> (#[trigger] list@[j]) < self.metadata@.len(),
            n < self.metadata@.len(),
            self.metadata@[n as int].priority == p,
        ensures
            res@ == list@.insert(desc_slot(self.metadata@, list@, p), n),
            by_priority_desc(self.metadata@, res@),
    {
        let ghost ls = list@;
        let ghost meta = self.metadata@;
        let mut k: usize = 0;
        assert(ls.subrange(0, ls.len() as int) =~= ls);
        while k < list.len() && self.metadata[list[k]].priority >= p
            invariant
                ls == list@,
                meta == self.metadata@,
                forall|j: int| 0 <= j < list@.len() ==> (#[trigger] list@[j]) < self.metadata@.len(),
                k <= ls.len(),
                forall|j: int| 0 <= j < k ==> meta[#[trigger] ls[j] as int].priority >= p,
                desc_slot(meta, ls, p) == k + desc_slot(meta, ls.subrange(k as int, ls.len() as int), p),
            decreases list.len() - k,
        {
            let ghost rest = ls.subrange(k as int, ls.len() as int);
            assert(rest[0] == ls[k as int]);
            assert(rest.drop_first() =~= ls.subrange(k as int + 1, ls.len() as int));
            k = k + 1;
        }
        proof {
            let rest = ls.subrange(k as int, ls.len() as int);
            if k < ls.len() {
                assert(rest[0] == ls[k as int]);
            }
            assert(desc_slot(meta, rest, p) == 0);
        }
        let mut out = list.clone();
        assert(out@ =~= ls);
        out.insert(k, n);
        proof {
            let ng = out@;
            assert forall|a: int, b: int| 0 <= a < b < ng.len() implies meta[ng[a] as int].priority >= meta[ng[b] as int].priority by {
                if b == k {
                    assert(ng[a] == ls[a]);
                } else if a == k {
                    assert(ng[b] == ls[b - 1]);
                    assert(meta[ls[k as int] as int].priority < p);
                    if b - 1 > k {
                        assert(meta[ls[k as int] as int].priority >= meta[ls[b - 1] as int].priority);
                    }
                } else {
                    let x = if a < k { a } else { a - 1 };
                    let y = if b < k { b } else { b - 1 };
                    assert(ng[a] == ls[x]);
                    assert(ng[b] == ls[y]);
                }
            }
        }
        out
    }

    /// Add a route for a method (taken in uppercase) and a path (typed
    /// parameters reduced). When a route already matches that path, the new
    /// route joins its candidates, by priority, and the tree is offered the
    /// path with the joined list (which it may refuse, silently); otherwise the
    /// route is offered alone and a refusal is reported.
    pub fn add_route(&mut self, method: &str, path: &str, metadata: RouteMetadata) -> (res: Result<(), String>)
        requires
            old(self).wf(),
        ensures
            final(self).wf(),
            too_many_params(plain_path(path@)) ==> (*final(self) == *old(self)
                && (res matches Err(x) && x@ == "Too many route parameters."@)),
            !too_many_params(plain_path(path@)) ==> final(self).metadata@ == old(self).metadata@.push(metadata),
            final(self).catch_all == old(self).catch_all,
            !too_many_params(plain_path(path@)) ==> final(self).lists@.len() == old(self).lists@.len() + 1,
            !too_many_params(plain_path(path@)) ==> final(self).lists@.drop_last() == old(self).lists@,
            !too_many_params(plain_path(path@)) ==> ({
                let m = crate::text::unicode_uppercase(method@);
                let mp = plain_path(path@);
                let prior = old(self).offered(m);
                let n = old(self).metadata@.len() as usize;
                let l = old(self).lists@.len() as usize;
                &&& final(self).table() == old(self).table().insert(m, prior.push((mp, l)))
                &&& match (if old(self).table().dom().contains(m) { matchit_lookup(prior, mp) } else { None }) {
                    Some((v, _)) => {
                        &&& res is Ok
                        &&& !final(self).is_compiled
                        &&& final(self).lists@[l as int]@ == old(self).lists@[v as int]@.insert(
                            desc_slot(old(self).metadata@, old(self).lists@[v as int]@, metadata.priority), n)
                    },
                    None => {
                        &&& final(self).lists@[l as int]@ == seq![n]
                        &&& match matchit_insert_error(prior, mp) {
                            None => res is Ok && !final(self).is_compiled,
                            Some(e) => (res matches Err(x) && x@ == e) && final(self).is_compiled == old(self).is_compiled,
                        }
                    },
                }
            }),
    {
        let m = crate::text::to_uppercase(method);
        let mp = convert_path(path);
        if count_open_braces(mp.as_str()) >= 26 {
            return Err(String::from_str("Too many route parameters."));
        }
        let n = self.metadata.len();
        let p = metadata.priority;
        let l = self.lists.len();
        let ghost mv = m@;
        let ghost prior = old(self).offered(m@);
        let found: Option<usize> = match self.method_routers.get(m.as_str()) {
            Some(tree) => {
                assert(matchit_routes(*tree) == old(self).table()[mv]);
                match matchit_at(tree, mp.as_str()) {
                    Some((v, _)) => Some(v),
                    None => None,
                }
            },
            None => None,
        };
        let ghost looked = if old(self).table().dom().contains(mv) { matchit_lookup(prior, mp@) } else { None };
        assert(found matches Some(v) ==> looked matches Some(x) && x.0 == v);
        assert(found is None ==> looked is None);
        assert(found matches Some(v) ==> exists|i: int| 0 <= i < prior.len() && (#[trigger] prior[i]).1 == v);
        self.metadata.push(metadata);
        let ghost meta1 = self.metadata@;
        proof {
            assert forall|li: int| 0 <= li < self.lists@.len() implies by_priority_desc(self.metadata@, #[trigger] self.lists@[li]@) by {
                assert forall|a: int, b: int| 0 <= a < b < self.lists@[li]@.len() implies
                    self.metadata@[self.lists@[li]@[a] as int].priority >= self.metadata@[self.lists@[li]@[b] as int].priority by {
                    assert(old(self).lists@[li]@[a] < old(self).metadata@.len());
                    assert(old(self).lists@[li]@[b] < old(self).metadata@.len());
                }
            }
        }
        match found {
            Some(v) => {
                proof {
                    let i = choose|i: int| 0 <= i < prior.len() && (#[trigger] prior[i]).1 == v;
                    assert(old(self).table().dom().contains(mv));
                    assert(prior == old(self).table()[mv]);
                    assert(prior[i].1 < old(self).lists@.len());
                    assert forall|j: int| 0 <= j < self.lists@[v as int]@.len() implies (#[trigger] self.lists@[v as int]@[j]) < self.metadata@.len() by {
                        assert(old(self).lists@[v as int]@[j] < old(self).metadata@.len());
                    }
                }
                let joined = self.with_candidate(&self.lists[v], n, p);
                proof {
                    let lv = old(self).lists@[v as int]@;
                    assert(self.lists@[v as int]@ == lv);
                    assert forall|j: int| 0 <= j < lv.len() implies (#[trigger] lv[j]) < old(self).metadata@.len() by {
                        assert(old(self).lists@[v as int]@[j] < old(self).metadata@.len());
                    }
                    lemma_desc_slot_prefix(old(self).metadata@, self.metadata@, lv, p);
                    lemma_desc_slot_bound(self.metadata@, lv, p);
                    let k = desc_slot(self.metadata@, lv, p);
                    assert forall|j: int| 0 <= j < joined@.len() implies (#[trigger] joined@[j]) < self.metadata@.len() by {
                        if j < k {
                            assert(joined@[j] == lv[j]);
                        } else if j > k {
                            assert(joined@[j] == lv[j - 1]);
                        }
                    }
                }
                self.lists.push(joined);
                let _ = self.offer(m, mp.as_str(), l);
                self.is_compiled = false;
                proof {
                    assert(self.lists@.drop_last() =~= old(self).lists@);
                    self.lemma_wf_after_add(*old(self), mv, prior, mp@, l);
                }
                Ok(())
            },
            None => {
                let single = vec![n];
                assert(single@ =~= seq![n]);
                self.lists.push(single);
                proof {
                    assert(self.lists@.drop_last() =~= old(self).lists@);
                    assert(by_priority_desc(self.metadata@, self.lists@[l as int]@));
                }
                let r = self.offer(m, mp.as_str(), l);
                proof {
                    self.lemma_wf_after_add(*old(self), mv, prior, mp@, l);
                }
                match r {
                    Ok(()) => {
                        self.is_compiled = false;
                        Ok(())
                    },
                    Err(e) => Err(e),
                }
            },
        }
    }
}

impl AdvancedRouter {
    /// Find the route for a request: among the candidates of the path pattern
    /// that matches (for the method, taken in uppercase), the first whose
    /// header and version conditions hold; a path that matches no pattern goes
    /// to the catch-all route, with the whole path as parameter `path`.
    pub fn match_route(&self, method: &str, path: &str, headers: &StrMap<String>, request_version: Option<&ApiVersion>) -> (res: Option<AdvancedRouteMatch>)
        requires
            self.wf(),
            headers.wf(),
        ensures
            ({
                let m = crate::text::unicode_uppercase(method@);
                let ver = match request_version { Some(v) => Some(*v), None => None };
                if !self.table().dom().contains(m) {
                    res is None
                } else {
                    match matchit_lookup(self.table()[m], path@) {
                        Some((v, ps)) => match first_fit(self.metadata@, self.lists@[v as int]@, *headers, ver) {
                            Some(j) => res matches Some(rm) && {
                                let mi = self.lists@[v as int]@[j];
                                &&& rm.metadata_index == mi
                                &&& rm.handler_id == self.metadata@[mi as int].handler_id
                                &&& rm.matched_version == self.metadata@[mi as int].version
                                &&& rm.params.wf()
                                &&& rm.params.to_map().map_values(|x: String| x@) == pairs_map(ps)
                            },
                            None => res is None,
                        },
                        None => match self.catch_all {
                            Some(c) => res matches Some(rm) && {
                                &&& rm.metadata_index == c
                                &&& rm.handler_id == self.metadata@[c as int].handler_id
                                &&& rm.matched_version is None
                                &&& rm.params.wf()
                                &&& rm.params.to_map().map_values(|x: String| x@) == map!["path"@ => path@]
                            },
                            None => res is None,
                        },
                    }
                }
            }),
    {
        let m = crate::text::to_uppercase(method);
        let tree = match self.method_routers.get(m.as_str()) {
            Some(t) => t,
            None => return None,
        };
        assert(matchit_routes(*tree) == self.table()[m@]);
        match matchit_at(tree, path) {
            Some((v, ps)) => {
                proof {
                    assert(self.table().dom().contains(m@));
                    let t = self.table()[m@];
                    let i = choose|i: int| 0 <= i < t.len() && (#[trigger] t[i]).1 == v;
                    assert(t[i].1 < self.lists@.len());
                }
                let ghost ver = match request_version { Some(x) => Some(*x), None => None };
                let list = &self.lists[v];
                let ghost ls = list@;
                let mut j: usize = 0;
                assert(ls.subrange(0, ls.len() as int) =~= ls);
                while j < list.len()
                    invariant
                        self.wf(),
                        headers.wf(),
                        m@ == crate::text::unicode_uppercase(method@),
                        self.table().dom().contains(m@),
                        matchit_lookup(self.table()[m@], path@) == Some((v, pair_views(ps@))),
                        v < self.lists@.len(),
                        ls == self.lists@[v as int]@,
                        ls == list@,
                        j <= ls.len(),
                        ver == match request_version { Some(x) => Some(*x), None => None },
                        first_fit(self.metadata@, ls, *headers, ver) == match first_fit(self.metadata@, ls.subrange(j as int, ls.len() as int), *headers, ver) {
                            Some(k) => Some(k + j),
                            None => None::<int>,
                        },
                    decreases list.len() - j,
                {
                    let ghost rest = ls.subrange(j as int, ls.len() as int);
                    assert(rest[0] == ls[j as int]);
                    assert(rest.drop_first() =~= ls.subrange(j as int + 1, ls.len() as int));
                    let mi = list[j];
                    assert(mi < self.metadata@.len());
                    let meta = &self.metadata[mi];
                    if meta.validate_headers(headers) && meta.validate_version(request_version) {
                        assert(headers_hold(*meta, *headers));
                        assert(version_admits(meta.version, ver));
                        assert(first_fit(self.metadata@, rest, *headers, ver) == Some(0int));
                        let params = params_map(&ps);
                        return Some(AdvancedRouteMatch { handler_id: meta.handler_id, params, matched_version: meta.version, metadata_index: mi });
                    }
                    j = j + 1;
                }
                assert(ls.subrange(ls.len() as int, ls.len() as int) =~= Seq::<usize>::empty());
                None
            },
            None => match self.catch_all {
                Some(c) => {
                    let mut params: StrMap<String> = StrMap::new();
                    params.insert(String::from_str("path"), owned(path));
                    assert(params.to_map().map_values(|x: String| x@) =~= map!["path"@ => path@]);
                    Some(AdvancedRouteMatch { handler_id: self.metadata[c].handler_id, params, matched_version: None, metadata_index: c })
                },
                None => None,
            },
        }
    }
}

} // verus!
