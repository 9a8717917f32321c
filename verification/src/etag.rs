//! Entity tags: generation from the response body, weak and strong forms, and
//! conditional `If-None-Match` requests answered with 304.
use vstd::prelude::*;
use vstd::string::*;
use crate::crypto::{append_hex_num, be_bytes, crc32, crc32_of, hex_num, sha256, sha256_of, u32_be_bytes};
use crate::cors::set_hdr;
use crate::http::{MiddlewareAction, Request, Response};
use crate::pathmatch::{matches_any, skip_match};
use crate::random::{hex_encode, hex_of};
use crate::text::{
    contains_sub, owned, split_char, split_str, str_contains, str_eq, str_trim, strip_char_both,
    strip_prefix_all, to_lowercase, trim, trim_char_matches, trim_start_matches, unicode_lowercase, views,
};
use crate::strmap::StrSet;

verus! {

// ============================================================================
// Generation
// ============================================================================

/// ETag strength.
#[derive(Clone, Copy, Debug, PartialEq, Eq, Structural)]
pub enum EtagStrength {
    /// Strong ETag (byte-for-byte identical)
    Strong,
    /// Weak ETag (semantically equivalent)
    Weak,
}

impl EtagStrength {
    /// The default: weak.
    pub fn default() -> (res: Self)
        ensures
            res == EtagStrength::Weak,
    {
        EtagStrength::Weak
    }
}

/// ETag generation method.
#[derive(Clone, Copy, Debug, PartialEq, Eq, Structural)]
pub enum EtagMethod {
    /// Hash of response body (SHA-256)
    ContentHash,
    /// CRC32 checksum (faster, less collision resistant)
    Crc32,
    /// Length + hash prefix (very fast)
    LengthHash,
}

/// The ETag value `method` gives for `body`: the hex of the first 16 bytes of
/// its SHA-256; the 8 hex digits of its CRC-32; or the hex of its length, a `-`,
/// and the hex of the first 8 bytes of its SHA-256.
pub open spec fn etag_value(method: EtagMethod, body: Seq<u8>) -> Seq<char> {
    match method {
        EtagMethod::ContentHash => hex_of(sha256_of(body).subrange(0, 16)),
        EtagMethod::Crc32 => hex_of(be_bytes(crc32_of(body))),
        EtagMethod::LengthHash => hex_num(body.len()) + "-"@ + hex_of(sha256_of(body).subrange(0, 8)),
    }
}

impl EtagMethod {
    /// Generate the ETag value of a body.
    pub fn generate(&self, body: &[u8]) -> (res: String)
        ensures
            res@ == etag_value(*self, body@),
    {
        match self {
            EtagMethod::ContentHash => {
                let hash = sha256(body);
                hex_encode(vstd::slice::slice_subrange(hash.as_slice(), 0, 16))
            },
            EtagMethod::Crc32 => {
                let crc = crc32(body);
                let bytes = u32_be_bytes(crc);
                hex_encode(bytes.as_slice())
            },
            EtagMethod::LengthHash => {
                let hash = sha256(body);
                let mut s = String::new();
                append_hex_num(&mut s, body.len() as u64);
                s.append("-");
                let h = hex_encode(vstd::slice::slice_subrange(hash.as_slice(), 0, 8));
                s.append(h.as_str());
                s
            },
        }
    }

    /// The default: length and hash prefix.
    pub fn default() -> (res: Self)
        ensures
            res == EtagMethod::LengthHash,
    {
        EtagMethod::LengthHash
    }
}

// ============================================================================
// Configuration
// ============================================================================

/// ETag middleware configuration.
pub struct EtagConfig {
    /// ETag generation method
    pub method: EtagMethod,
    /// ETag strength
    pub strength: EtagStrength,
    /// Minimum body size to generate ETag
    pub min_size: usize,
    /// Maximum body size to generate ETag (0 = no limit)
    pub max_size: usize,
    /// Content types to process (empty = all)
    pub content_types: StrSet,
    /// Status codes to process (no code twice)
    pub status_codes: Vec<u16>,
    /// Skip paths
    pub skip_paths: Vec<String>,
}

/// The quoted ETag, prefixed with `W/` when weak.
pub open spec fn formatted(strength: EtagStrength, value: Seq<char>) -> Seq<char> {
    match strength {
        EtagStrength::Strong => "\""@ + value + "\""@,
        EtagStrength::Weak => "W/\""@ + value + "\""@,
    }
}

impl EtagConfig {
    pub open spec fn wf(&self) -> bool {
        &&& self.content_types.wf()
        &&& forall|i: int, j: int| 0 <= i < j < self.status_codes@.len() ==> self.status_codes@[i] != self.status_codes@[j]
    }

    /// The defaults: length-and-hash, weak, no minimum, at most 10 MiB, all
    /// content types, statuses 200 and 201, nothing skipped.
    pub open spec fn is_default(&self) -> bool {
        &&& self.method == EtagMethod::LengthHash
        &&& self.strength == EtagStrength::Weak
        &&& self.min_size == 0
        &&& self.max_size == 10485760
        &&& self.content_types.members().len() == 0
        &&& self.status_codes@ == seq![200u16, 201u16]
        &&& self.skip_paths@.len() == 0
    }

    /// Create new ETag config.
    pub fn new() -> (res: Self)
        ensures
            res.wf(),
            res.is_default(),
    {
        let status_codes = vec![200u16, 201u16];
        assert(status_codes@ =~= seq![200u16, 201u16]);
        EtagConfig {
            method: EtagMethod::default(),
            strength: EtagStrength::default(),
            min_size: 0,
            max_size: 10 * 1024 * 1024,
            content_types: StrSet::new(),
            status_codes,
            skip_paths: Vec::new(),
        }
    }

    /// Set generation method.
    pub fn method(self, method: EtagMethod) -> (res: Self)
        ensures
            res == (EtagConfig { method, ..self }),
    {
        let mut c = self;
        c.method = method;
        c
    }

    /// Use content hash method.
    pub fn content_hash(self) -> (res: Self)
        ensures
            res == (EtagConfig { method: EtagMethod::ContentHash, ..self }),
    {
        self.method(EtagMethod::ContentHash)
    }

    /// Use CRC32 method.
    pub fn crc32(self) -> (res: Self)
        ensures
            res == (EtagConfig { method: EtagMethod::Crc32, ..self }),
    {
        self.method(EtagMethod::Crc32)
    }

    /// Use length + hash method.
    pub fn length_hash(self) -> (res: Self)
        ensures
            res == (EtagConfig { method: EtagMethod::LengthHash, ..self }),
    {
        self.method(EtagMethod::LengthHash)
    }

    /// Set ETag strength.
    pub fn strength(self, strength: EtagStrength) -> (res: Self)
        ensures
            res == (EtagConfig { strength, ..self }),
    {
        let mut c = self;
        c.strength = strength;
        c
    }

    /// Use strong ETags.
    pub fn strong(self) -> (res: Self)
        ensures
            res == (EtagConfig { strength: EtagStrength::Strong, ..self }),
    {
        self.strength(EtagStrength::Strong)
    }

    /// Use weak ETags.
    pub fn weak(self) -> (res: Self)
        ensures
            res == (EtagConfig { strength: EtagStrength::Weak, ..self }),
    {
        self.strength(EtagStrength::Weak)
    }

    /// Set minimum body size.
    pub fn min_size(self, size: usize) -> (res: Self)
        ensures
            res == (EtagConfig { min_size: size, ..self }),
    {
        let mut c = self;
        c.min_size = size;
        c
    }

    /// Set maximum body size (0 = no limit).
    pub fn max_size(self, size: usize) -> (res: Self)
        ensures
            res == (EtagConfig { max_size: size, ..self }),
    {
        let mut c = self;
        c.max_size = size;
        c
    }

    /// Add a content type to process.
    pub fn content_type(self, content_type: &str) -> (res: Self)
        requires
            self.wf(),
        ensures
            res.wf(),
            res.content_types.members() == crate::strmap::seq_insert(self.content_types.members(), content_type@),
            res == (EtagConfig { content_types: res.content_types, ..self }),
    {
        let mut c = self;
        c.content_types.insert(owned(content_type));
        c
    }

    /// Add a status code to process.
    pub fn status_code(self, code: u16) -> (res: Self)
        requires
            self.wf(),
        ensures
            res.wf(),
            self.status_codes@.contains(code) ==> res.status_codes@ == self.status_codes@,
            !self.status_codes@.contains(code) ==> res.status_codes@ == self.status_codes@.push(code),
            res == (EtagConfig { status_codes: res.status_codes, ..self }),
    {
        let mut c = self;
        let mut i: usize = 0;
        while i < c.status_codes.len()
            invariant
                i <= c.status_codes@.len(),
                c == self,
                self.wf(),
                forall|j: int| 0 <= j < i ==> c.status_codes@[j] != code,
            decreases c.status_codes.len() - i,
        {
            if c.status_codes[i] == code {
                return c;
            }
            i = i + 1;
        }
        c.status_codes.push(code);
        c
    }

    /// Add a path to skip.
    pub fn skip_path(self, path: &str) -> (res: Self)
        ensures
            views(res.skip_paths@) == views(self.skip_paths@).push(path@),
            res == (EtagConfig { skip_paths: res.skip_paths, ..self }),
    {
        let mut c = self;
        c.skip_paths.push(owned(path));
        assert(views(c.skip_paths@) =~= views(self.skip_paths@).push(path@));
        c
    }

    /// Format an ETag value with the configured strength.
    pub fn format_etag(&self, value: &str) -> (res: String)
        ensures
            res@ == formatted(self.strength, value@),
    {
        let mut s = match self.strength {
            EtagStrength::Strong => String::from_str("\""),
            EtagStrength::Weak => String::from_str("W/\""),
        };
        s.append(value);
        s.append("\"");
        s
    }

    /// The default configuration (that of `new`).
    pub fn default() -> (res: Self)
        ensures
            res.wf(),
            res.is_default(),
    {
        Self::new()
    }
}

// ============================================================================
// Matching
// ============================================================================

/// The trimmed, non-empty pieces of `pieces`, in order.
pub open spec fn nonempty_trimmed(pieces: Seq<Seq<char>>) -> Seq<Seq<char>>
    decreases pieces.len(),
{
    if pieces.len() == 0 {
        Seq::empty()
    } else {
        let init = nonempty_trimmed(pieces.drop_last());
        let t = trim(pieces.last());
        if t.len() > 0 {
            init.push(t)
        } else {
            init
        }
    }
}

/// The entity tags listed in an `If-None-Match` header: `*` alone, or the
/// trimmed non-empty comma-separated entries.
pub open spec fn spec_parse_inm(header: Seq<char>) -> Seq<Seq<char>> {
    if header == "*"@ {
        seq!["*"@]
    } else {
        nonempty_trimmed(split_char(header, ','))
    }
}

/// An entity tag with surrounding space, a leading `W/` and surrounding quotes removed.
pub open spec fn opaque_tag(e: Seq<char>) -> Seq<char> {
    strip_char_both(strip_prefix_all(trim(e), "W/"@), '"')
}

/// Weak comparison of two entity tags.
pub open spec fn spec_etags_match(client: Seq<char>, server: Seq<char>) -> bool {
    opaque_tag(client) == opaque_tag(server)
}

/// Whether an `If-None-Match` header matches `etag`: some listed tag is `*` or
/// matches it.
pub open spec fn spec_inm_matches(header: Seq<char>, etag: Seq<char>) -> bool {
    exists|i: int| 0 <= i < spec_parse_inm(header).len()
        && (#[trigger] spec_parse_inm(header)[i] == "*"@ || spec_etags_match(spec_parse_inm(header)[i], etag))
}

/// Weak comparison is an equivalence: it is symmetric.
pub proof fn lemma_etags_match_symmetric(a: Seq<char>, b: Seq<char>)
    ensures
        spec_etags_match(a, b) == spec_etags_match(b, a),
{
}

/// A tag matches itself, whatever its form.
pub proof fn lemma_etags_match_reflexive(a: Seq<char>)
    ensures
        spec_etags_match(a, a),
{
}

/// The weak and strong forms of one value match each other.
pub proof fn lemma_weak_matches_strong(value: Seq<char>)
    ensures
        spec_etags_match(formatted(EtagStrength::Weak, value), formatted(EtagStrength::Strong, value)),
{
    let w = formatted(EtagStrength::Weak, value);
    let s = formatted(EtagStrength::Strong, value);
    reveal_strlit("W/\"");
    reveal_strlit("\"");
    reveal_strlit("W/");
    assert(w =~= "W/"@ + s);
    lemma_trim_quoted(s);
    lemma_trim_quoted(w);
    assert(trim(w) == w);
    assert(trim(s) == s);
    assert(w.subrange(0, 2) =~= "W/"@);
    assert(is_prefix_w(w));
    assert(w.subrange(2, w.len() as int) =~= s);
    assert(strip_prefix_all(w, "W/"@) == strip_prefix_all(s, "W/"@));
}

spec fn is_prefix_w(s: Seq<char>) -> bool {
    crate::text::is_prefix("W/"@, s)
}

/// A quoted or `W/`-quoted tag has no surrounding whitespace.
proof fn lemma_trim_quoted(s: Seq<char>)
    requires
        s.len() >= 2,
        s[0] == '"' || s[0] == 'W',
        s.last() == '"',
    ensures
        trim(s) == s,
{
    assert(crate::text::trim_start(s) == s);
}

/// The ETag middleware.
pub struct EtagMiddleware {
    pub config: EtagConfig,
}

impl EtagMiddleware {
    pub open spec fn wf(&self) -> bool {
        self.config.wf()
    }

    /// Whether a response gets an ETag: a GET or HEAD request, a listed status,
    /// a body within the size bounds, a path not skipped, an accepted content
    /// type (when any are listed) and no ETag yet.
    pub open spec fn spec_should_process(&self, request: &Request, response: &Response) -> bool {
        let n = response.body@.len();
        &&& (request.method@ == "GET"@ || request.method@ == "HEAD"@)
        &&& self.config.status_codes@.contains(response.status)
        &&& n >= self.config.min_size
        &&& !(self.config.max_size > 0 && n > self.config.max_size)
        &&& !(exists|i: int| 0 <= i < self.config.skip_paths@.len() && skip_match(request.path@, #[trigger] self.config.skip_paths@[i]@))
        &&& (self.config.content_types.members().len() > 0 ==> (response.header_map().dom().contains("Content-Type"@)
            && exists|i: int| 0 <= i < self.config.content_types.members().len()
                && contains_sub(unicode_lowercase(response.header_map()["Content-Type"@]), #[trigger] self.config.content_types.members()[i])))
        &&& !response.header_map().dom().contains("ETag"@)
    }

    /// The ETag a response is given.
    pub open spec fn spec_etag(&self, response: &Response) -> Seq<char> {
        formatted(self.config.strength, etag_value(self.config.method, response.body@))
    }

    /// The headers of the 304 answer: the ETag, and the response's cache headers.
    pub open spec fn not_modified_headers(&self, response: &Response) -> Map<Seq<char>, Seq<char>> {
        let m = response.header_map();
        let h1 = set_hdr(Map::empty(), "ETag"@, self.spec_etag(response));
        let h2 = if m.dom().contains("Cache-Control"@) { set_hdr(h1, "Cache-Control"@, m["Cache-Control"@]) } else { h1 };
        let h3 = if m.dom().contains("Expires"@) { set_hdr(h2, "Expires"@, m["Expires"@]) } else { h2 };
        if m.dom().contains("Vary"@) { set_hdr(h3, "Vary"@, m["Vary"@]) } else { h3 }
    }

    /// Create new ETag middleware.
    pub fn new() -> (res: Self)
        ensures
            res.wf(),
            res.config.is_default(),
    {
        EtagMiddleware { config: EtagConfig::default() }
    }

    /// Create with config.
    pub fn with_config(config: EtagConfig) -> (res: Self)
        ensures
            res.config == config,
    {
        EtagMiddleware { config }
    }

    /// Whether the response should get an ETag.
    pub fn should_process(&self, request: &Request, response: &Response) -> (res: bool)
        requires
            self.wf(),
            request.wf(),
            response.wf(),
        ensures
            res == self.spec_should_process(request, response),
    {
        if !str_eq(request.method.as_str(), "GET") && !str_eq(request.method.as_str(), "HEAD") {
            return false;
        }
        let mut found = false;
        let mut i: usize = 0;
        while i < self.config.status_codes.len()
            invariant
                i <= self.config.status_codes@.len(),
                found == exists|j: int| 0 <= j < i && self.config.status_codes@[j] == response.status,
            decreases self.config.status_codes.len() - i,
        {
            if self.config.status_codes[i] == response.status {
                found = true;
            }
            i = i + 1;
        }
        if !found {
            return false;
        }
        let body_len = response.body.len();
        if body_len < self.config.min_size {
            return false;
        }
        if self.config.max_size > 0 && body_len > self.config.max_size {
            return false;
        }
        if matches_any(request.path.as_str(), &self.config.skip_paths) {
            return false;
        }
        if !self.config.content_types.is_empty() {
            match response.get_header("Content-Type") {
                Some(ct) => {
                    let lower = to_lowercase(ct.as_str());
                    let mut any = false;
                    let mut k: usize = 0;
                    let ghost ms = self.config.content_types.members();
                    while k < self.config.content_types.items.len()
                        invariant
                            ms == self.config.content_types.members(),
                            k <= ms.len(),
                            any == exists|j: int| 0 <= j < k && contains_sub(lower@, #[trigger] ms[j]),
                        decreases self.config.content_types.items.len() - k,
                    {
                        assert(ms[k as int] == self.config.content_types.items@[k as int]@);
                        if str_contains(lower.as_str(), self.config.content_types.items[k].as_str()) {
                            any = true;
                        }
                        k = k + 1;
                    }
                    if !any {
                        return false;
                    }
                },
                None => {
                    return false;
                },
            }
        }
        !response.headers.contains_key("ETag")
    }

    /// The entity tags of an `If-None-Match` header.
    pub fn parse_if_none_match(header: &str) -> (res: Vec<String>)
        ensures
            views(res@) == spec_parse_inm(header@),
    {
        if str_eq(header, "*") {
            let v = vec![String::from_str("*")];
            assert(views(v@) =~= seq!["*"@]);
            return v;
        }
        let pieces = split_str(header, ',');
        let ghost ps = views(pieces@);
        let mut out: Vec<String> = Vec::new();
        let mut i: usize = 0;
        assert(ps.subrange(0, 0) =~= Seq::<Seq<char>>::empty());
        while i < pieces.len()
            invariant
                ps == views(pieces@),
                i <= ps.len(),
                views(out@) == nonempty_trimmed(ps.subrange(0, i as int)),
            decreases pieces.len() - i,
        {
            let t = str_trim(pieces[i].as_str());
            assert(ps.subrange(0, i as int + 1).drop_last() =~= ps.subrange(0, i as int));
            if t.unicode_len() > 0 {
                out.push(t);
                assert(views(out@) =~= nonempty_trimmed(ps.subrange(0, i as int)).push(trim(ps[i as int])));
            }
            i = i + 1;
        }
        assert(ps.subrange(0, ps.len() as int) =~= ps);
        out
    }

    /// Weak comparison of a client tag with the server's.
    pub fn etags_match(client_etag: &str, server_etag: &str) -> (res: bool)
        ensures
            res == spec_etags_match(client_etag@, server_etag@),
    {
        let c1 = str_trim(client_etag);
        let c2 = trim_start_matches(c1.as_str(), "W/");
        let c = trim_char_matches(c2, '"');
        let s1 = str_trim(server_etag);
        let s2 = trim_start_matches(s1.as_str(), "W/");
        let s = trim_char_matches(s2, '"');
        str_eq(c, s)
    }

    /// After the handler: a response that qualifies gets its ETag, unless the
    /// request's `If-None-Match` matches it, in which case a 304 answer with the
    /// ETag and the cache headers replaces it.
    pub fn after(&self, request: &Request, response: &mut Response) -> (res: MiddlewareAction)
        requires
            self.wf(),
            request.wf(),
            old(response).wf(),
        ensures
            final(response).wf(),
            !self.spec_should_process(request, old(response)) ==> res is Continue && *final(response) == *old(response),
            self.spec_should_process(request, old(response)) ==> {
                let etag = self.spec_etag(old(response));
                if (request.header("if-none-match"@) matches Some(h) && spec_inm_matches(h, etag)) {
                    &&& res matches MiddlewareAction::Stop(r)
                    &&& r.wf()
                    &&& r.status == 304
                    &&& r.header_map() == self.not_modified_headers(old(response))
                    &&& r.body@.len() == 0
                    &&& *final(response) == *old(response)
                } else {
                    &&& res is Continue
                    &&& final(response).header_map() == set_hdr(old(response).header_map(), "ETag"@, etag)
                    &&& final(response).status == old(response).status
                    &&& final(response).body == old(response).body
                }
            },
    {
        if !self.should_process(request, response) {
            return MiddlewareAction::Continue;
        }
        let value = self.config.method.generate(response.body.as_slice());
        let etag = self.config.format_etag(value.as_str());
        match request.header_value("if-none-match") {
            Some(inm) => {
                if matches_if_none_match(inm, etag.as_str()) {
                    let mut not_modified = Response::new(304);
                    not_modified.set_header("ETag", etag.as_str());
                    match response.get_header("Cache-Control") {
                        Some(cc) => not_modified.set_header("Cache-Control", cc.as_str()),
                        None => {},
                    }
                    match response.get_header("Expires") {
                        Some(exp) => not_modified.set_header("Expires", exp.as_str()),
                        None => {},
                    }
                    match response.get_header("Vary") {
                        Some(vary) => not_modified.set_header("Vary", vary.as_str()),
                        None => {},
                    }
                    return MiddlewareAction::Stop(not_modified);
                }
            },
            None => {},
        }
        response.set_header("ETag", etag.as_str());
        MiddlewareAction::Continue
    }

    /// Runs late, after the response is built.
    pub fn priority(&self) -> (res: i32)
        ensures
            res == 80,
    {
        80
    }

    /// The middleware's name.
    pub fn name(&self) -> (res: &'static str)
        ensures
            res@ == "etag"@,
    {
        "etag"
    }

    /// The default middleware (that of `new`).
    pub fn default() -> (res: Self)
        ensures
            res.wf(),
            res.config.is_default(),
    {
        Self::new()
    }
}

// ============================================================================
// Helper functions
// ============================================================================

/// A weak ETag for arbitrary data: the hex of the first 16 bytes of its SHA-256.
pub fn generate_etag(data: &[u8]) -> (res: String)
    ensures
        res@ == formatted(EtagStrength::Weak, etag_value(EtagMethod::ContentHash, data@)),
{
    let v = EtagMethod::ContentHash.generate(data);
    let mut s = String::from_str("W/\"");
    s.append(v.as_str());
    s.append("\"");
    s
}

/// A strong ETag for arbitrary data.
pub fn generate_strong_etag(data: &[u8]) -> (res: String)
    ensures
        res@ == formatted(EtagStrength::Strong, etag_value(EtagMethod::ContentHash, data@)),
{
    let v = EtagMethod::ContentHash.generate(data);
    let mut s = String::from_str("\"");
    s.append(v.as_str());
    s.append("\"");
    s
}

/// Whether an `If-None-Match` header matches `etag`.
pub fn matches_if_none_match(if_none_match: &str, etag: &str) -> (res: bool)
    ensures
        res == spec_inm_matches(if_none_match@, etag@),
{
    let tags = EtagMiddleware::parse_if_none_match(if_none_match);
    let ghost ts = spec_parse_inm(if_none_match@);
    let mut i: usize = 0;
    while i < tags.len()
        invariant
            views(tags@) == ts,
            ts == spec_parse_inm(if_none_match@),
            i <= ts.len(),
            forall|j: int| 0 <= j < i ==> !(#[trigger] ts[j] == "*"@ || spec_etags_match(ts[j], etag@)),
        decreases tags.len() - i,
    {
        assert(ts[i as int] == tags@[i as int]@);
        if str_eq(tags[i].as_str(), "*") || EtagMiddleware::etags_match(tags[i].as_str(), etag) {
            return true;
        }
        i = i + 1;
    }
    false
}

} // verus!
