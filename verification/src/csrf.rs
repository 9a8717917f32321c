//! CSRF protection: double-submit cookies, signed tokens with an age limit, and
//! Origin/Referer checks against the Host or an allow-list.
use vstd::prelude::*;
use vstd::string::*;
use crate::crypto::{ct_eq_bytes, hex_decode, hmac_sha256, hmac_sha256_of, lemma_hex_chars, lemma_hex_injective, valid_hex};
use crate::http::{JsonValue, MiddlewareAction, MiddlewareError, Request, Response, strip_ctl};
use crate::pathmatch::{matches_any, skip_match};
use crate::random::{hex_encode, hex_of, lemma_hex_len, random_bytes};
use crate::text::{append_u64, ascii_lower, before_char, chars_of, dec, find_char, find_last_char, is_prefix, last_index_of, lemma_dec_digits, lemma_first_index_is, lemma_last_index_is, lemma_parse_dec, owned, parse_u64, parse_uint, str_eq, str_starts_with, to_lowercase, to_uppercase, unicode_lowercase, unicode_uppercase, views};
use crate::time::{Duration, unix_now_secs};

verus! {

// ============================================================================
// Helpers
// ============================================================================

/// Constant-time string comparison, so that comparing tokens reveals nothing
/// through timing.
pub fn secure_compare(a: &str, b: &str) -> (res: bool)
    ensures
        res == (a@ == b@),
{
    proof {
        vstd::utf8::encode_utf8_decode_utf8(a@);
        vstd::utf8::encode_utf8_decode_utf8(b@);
    }
    if a.len() != b.len() {
        return false;
    }
    ct_eq_bytes(a.as_bytes(), b.as_bytes())
}

/// `s` without a leading `https://`, or else without a leading `http://`.
pub open spec fn strip_scheme(s: Seq<char>) -> Seq<char> {
    if is_prefix("https://"@, s) {
        s.subrange(8, s.len() as int)
    } else if is_prefix("http://"@, s) {
        s.subrange(7, s.len() as int)
    } else {
        s
    }
}

/// A character that ends the authority of a URL: `/`, `?` or `#`.
pub open spec fn is_authority_end(c: char) -> bool {
    c == '/' || c == '?' || c == '#'
}

/// Index of the first authority delimiter in `s`, if any.
pub open spec fn first_authority_end(s: Seq<char>) -> Option<int>
    decreases s.len(),
{
    if s.len() == 0 {
        None
    } else if is_authority_end(s[0]) {
        Some(0)
    } else {
        match first_authority_end(s.drop_first()) {
            Some(i) => Some(i + 1),
            None => None,
        }
    }
}

/// The `host[:port]` authority of a URL-ish string: the scheme stripped, and
/// everything from the first `/`, `?` or `#` dropped.
pub open spec fn authority(s: Seq<char>) -> Seq<char> {
    let t = strip_scheme(s);
    match first_authority_end(t) {
        Some(i) => t.subrange(0, i),
        None => t,
    }
}

proof fn lemma_first_authority_end(s: Seq<char>, i: int)
    requires
        0 <= i <= s.len(),
        forall|j: int| 0 <= j < i ==> !is_authority_end(#[trigger] s[j]),
    ensures
        i < s.len() && is_authority_end(s[i]) ==> first_authority_end(s) == Some(i),
        i == s.len() ==> first_authority_end(s) is None,
    decreases i,
{
    if i > 0 {
        assert forall|j: int| 0 <= j < i - 1 implies !is_authority_end(#[trigger] s.drop_first()[j]) by {
            assert(s.drop_first()[j] == s[j + 1]);
        }
        lemma_first_authority_end(s.drop_first(), i - 1);
    }
}

/// Extract the `host[:port]` authority from a URL-ish string, stripping the
/// scheme and any path, query or fragment: `https://example.com:8443/login?x=1`
/// gives `example.com:8443`.
pub fn origin_authority(value: &str) -> (res: &str)
    ensures
        res@ == authority(value@),
{
    proof {
        reveal_strlit("https://");
        reveal_strlit("http://");
    }
    let v = chars_of(value);
    let start: usize = if str_starts_with(value, "https://") {
        8
    } else if str_starts_with(value, "http://") {
        7
    } else {
        0
    };
    let ghost t = v@.subrange(start as int, v@.len() as int);
    assert(t =~= strip_scheme(value@));
    let mut i: usize = start;
    while i < v.len()
        invariant
            v@ == value@,
            start <= i <= v@.len(),
            t == v@.subrange(start as int, v@.len() as int),
            t == strip_scheme(value@),
            forall|j: int| 0 <= j < i - start ==> !is_authority_end(#[trigger] t[j]),
        decreases v.len() - i,
    {
        let c = v[i];
        if c == '/' || c == '?' || c == '#' {
            proof {
                assert(t[i - start] == c);
                lemma_first_authority_end(t, i - start);
                assert(t.subrange(0, i - start) =~= v@.subrange(start as int, i as int));
            }
            return value.substring_char(start, i);
        }
        i = i + 1;
    }
    proof {
        lemma_first_authority_end(t, i - start);
    }
    value.substring_char(start, v.len())
}

// ============================================================================
// Tokens
// ============================================================================

/// A CSRF token with its creation time.
pub struct CsrfToken {
    /// Token value
    pub token: String,
    /// Creation timestamp (Unix seconds)
    pub timestamp: u64,
}

/// The message a signed token carries: its timestamp, a `.`, and the hex of
/// its random bytes.
pub open spec fn signed_message(timestamp: u64, nonce: Seq<u8>) -> Seq<char> {
    dec(timestamp as nat) + "."@ + hex_of(nonce)
}

/// A signed token: the message, a `.`, and the hex of its HMAC-SHA256 under `secret`.
pub open spec fn signed_token(secret: Seq<u8>, message: Seq<char>) -> Seq<char> {
    message + "."@ + hex_of(hmac_sha256_of(secret, message))
}

/// Whether `token` is accepted as signed with `secret` and no older than
/// `max_age` at time `now`: the text after the last `.` must be the hex (either
/// case) of the HMAC of the text before it, and the number before the first `.`
/// of that text (0 when it is not a number) must be at most `max_age` seconds
/// before `now` (the difference taken modulo 2^64).
pub open spec fn spec_verify_signed(token: Seq<char>, secret: Seq<u8>, max_age: u64, now: u64) -> bool {
    match last_index_of(token, '.') {
        None => false,
        Some(i) => {
            let message = token.subrange(0, i);
            let signature = token.subrange(i + 1, token.len() as int);
            let ts: u64 = match parse_uint(before_char(message, '.'), u64::MAX as nat) {
                Some(n) => n as u64,
                None => 0,
            };
            &&& valid_hex(signature)
            &&& ascii_lower(signature) == hex_of(hmac_sha256_of(secret, message))
            &&& now.wrapping_sub(ts) <= max_age
        },
    }
}

proof fn lemma_no_dot_dec(n: nat)
    ensures
        forall|i: int| 0 <= i < dec(n).len() ==> #[trigger] dec(n)[i] != '.',
{
    lemma_dec_digits(n);
    assert forall|i: int| 0 <= i < dec(n).len() implies #[trigger] dec(n)[i] != '.' by {
        assert(crate::text::is_digit(dec(n)[i]));
    }
}

proof fn lemma_no_dot_hex(a: Seq<u8>)
    ensures
        forall|i: int| 0 <= i < hex_of(a).len() ==> #[trigger] hex_of(a)[i] != '.',
{
    lemma_hex_chars(a);
    assert forall|i: int| 0 <= i < hex_of(a).len() implies #[trigger] hex_of(a)[i] != '.' by {
        assert(crate::crypto::is_lower_hex(hex_of(a)[i]));
    }
}

impl CsrfToken {
    /// Generate a new CSRF token: 32 random bytes in lowercase hex, stamped with
    /// the current time.
    pub fn generate() -> (res: Self)
        ensures
            exists|b: Seq<u8>| b.len() == 32 && res.token@ == hex_of(b),
            res.token@.len() == 64,
    {
        let bytes = random_bytes(32);
        let timestamp = unix_now_secs();
        let token = hex_encode(bytes.as_slice());
        proof {
            lemma_hex_len(bytes@);
        }
        CsrfToken { token, timestamp }
    }

    /// Generate a token signed with `secret`: the current time, a `.`, 16 random
    /// bytes in hex, a `.`, and the HMAC-SHA256 of all that before it in hex.
    pub fn generate_signed(secret: &[u8]) -> (res: Self)
        ensures
            exists|nonce: Seq<u8>| nonce.len() == 16
                && res.token@ == signed_token(secret@, signed_message(res.timestamp, nonce)),
    {
        let nonce = random_bytes(16);
        let timestamp = unix_now_secs();
        let mut message = String::new();
        append_u64(&mut message, timestamp);
        message.append(".");
        let h = hex_encode(nonce.as_slice());
        message.append(h.as_str());
        assert(message@ =~= signed_message(timestamp, nonce@));
        let signature = hmac_sha256(secret, message.as_str());
        let mut token = message.clone();
        token.append(".");
        let s = hex_encode(signature.as_slice());
        token.append(s.as_str());
        CsrfToken { token, timestamp }
    }

    /// Verify a signed token at time `now`.
    pub fn verify_signed_at(token: &str, secret: &[u8], max_age: Duration, now: u64) -> (res: bool)
        ensures
            res == spec_verify_signed(token@, secret@, max_age.secs, now),
    {
        let v = chars_of(token);
        let i = match find_last_char(&v, '.') {
            Some(i) => i,
            None => {
                return false;
            },
        };
        let message = token.substring_char(0, i);
        let signature = token.substring_char(i + 1, v.len());
        let tag = hmac_sha256(secret, message);
        let expected = match hex_decode(signature) {
            Some(e) => e,
            None => Vec::new(),
        };
        if !ct_eq_bytes(expected.as_slice(), tag.as_slice()) {
            proof {
                if valid_hex(signature@) && ascii_lower(signature@) == hex_of(tag@) {
                    lemma_hex_injective(expected@, tag@);
                }
            }
            return false;
        }
        proof {
            if !valid_hex(signature@) {
                assert(expected@.len() == 0);
                assert(false);
            }
        }
        let mv = chars_of(message);
        let ts_text = match find_char(&mv, '.') {
            Some(k) => message.substring_char(0, k),
            None => message,
        };
        let ts: u64 = match parse_u64(ts_text) {
            Some(n) => n,
            None => 0,
        };
        now.wrapping_sub(ts) <= max_age.as_secs()
    }

    /// Verify a signed token now.
    pub fn verify_signed(token: &str, secret: &[u8], max_age: Duration) -> (res: bool)
        ensures
            res ==> exists|now: u64| spec_verify_signed(token@, secret@, max_age.secs, now),
            !res ==> exists|now: u64| !spec_verify_signed(token@, secret@, max_age.secs, now),
    {
        let now = unix_now_secs();
        Self::verify_signed_at(token, secret, max_age, now)
    }

    /// Whether the token is older than `max_age` at time `now` (the difference
    /// taken modulo 2^64).
    pub fn is_expired_at(&self, max_age: Duration, now: u64) -> (res: bool)
        ensures
            res == (now.wrapping_sub(self.timestamp) > max_age.secs),
    {
        now.wrapping_sub(self.timestamp) > max_age.as_secs()
    }

    /// Whether the token is older than `max_age` now.
    pub fn is_expired(&self, max_age: Duration) -> (res: bool)
        ensures
            res ==> exists|now: u64| now.wrapping_sub(self.timestamp) > max_age.secs,
    {
        let now = unix_now_secs();
        self.is_expired_at(max_age, now)
    }
}

/// A token signed with a secret is accepted with that secret for as long as
/// it is no older than the age limit.
pub proof fn lemma_signed_token_verifies(secret: Seq<u8>, timestamp: u64, nonce: Seq<u8>, max_age: u64, now: u64)
    ensures
        spec_verify_signed(signed_token(secret, signed_message(timestamp, nonce)), secret, max_age, now)
            == (now.wrapping_sub(timestamp) <= max_age),
{
    let message = signed_message(timestamp, nonce);
    let sig = hex_of(hmac_sha256_of(secret, message));
    let token = signed_token(secret, message);
    reveal_strlit(".");
    lemma_no_dot_hex(hmac_sha256_of(secret, message));
    lemma_no_dot_hex(nonce);
    lemma_no_dot_dec(timestamp as nat);
    assert(token[message.len() as int] == '.');
    assert forall|j: int| message.len() < j < token.len() implies token[j] != '.' by {
        assert(token[j] == sig[j - message.len() - 1]);
    }
    lemma_last_index_is(token, '.', message.len() as int);
    assert(token.subrange(0, message.len() as int) =~= message);
    assert(token.subrange(message.len() as int + 1, token.len() as int) =~= sig);
    lemma_hex_chars(hmac_sha256_of(secret, message));
    let d = dec(timestamp as nat);
    assert(message[d.len() as int] == '.');
    assert forall|j: int| 0 <= j < d.len() implies message[j] != '.' by {
        assert(message[j] == d[j]);
    }
    lemma_first_index_is(message, '.', d.len() as int);
    assert(message.subrange(0, d.len() as int) =~= d);
    lemma_parse_dec(timestamp as nat, u64::MAX as nat);
}

// ============================================================================
// Configuration
// ============================================================================

/// CSRF protection method.
pub enum CsrfMethod {
    /// Double-submit cookie (stateless)
    DoubleSubmit,
    /// Signed tokens (stateless with expiration)
    SignedToken { secret: Vec<u8>, max_age: Duration },
    /// Origin/Referer header validation only
    OriginCheck,
}

impl CsrfMethod {
    /// The default: double-submit cookie.
    pub fn default() -> (res: Self)
        ensures
            res is DoubleSubmit,
    {
        CsrfMethod::DoubleSubmit
    }
}

/// CSRF middleware configuration.
pub struct CsrfConfig {
    /// Protection method
    pub method: CsrfMethod,
    /// Cookie name for token
    pub cookie_name: String,
    /// Header name for token
    pub header_name: String,
    /// Form field name for token
    pub form_field: String,
    /// Cookie path
    pub cookie_path: String,
    /// Cookie secure flag
    pub cookie_secure: bool,
    /// Cookie SameSite attribute
    pub cookie_same_site: String,
    /// Safe HTTP methods (no validation required)
    pub safe_methods: Vec<String>,
    /// Paths to skip CSRF protection
    pub skip_paths: Vec<String>,
    /// Allowed origins for origin check
    pub allowed_origins: Vec<String>,
    /// Context key for storing token
    pub context_key: String,
}

impl CsrfConfig {
    /// The defaults: double-submit cookie `_csrf` with header `X-CSRF-Token` and
    /// form field `_csrf`, cookie path `/`, secure, `SameSite=Lax`, safe methods
    /// GET, HEAD, OPTIONS and TRACE, nothing skipped or allowed, context key
    /// `csrf_token`.
    pub open spec fn is_default(&self) -> bool {
        &&& self.method is DoubleSubmit
        &&& self.cookie_name@ == "_csrf"@
        &&& self.header_name@ == "X-CSRF-Token"@
        &&& self.form_field@ == "_csrf"@
        &&& self.cookie_path@ == "/"@
        &&& self.cookie_secure
        &&& self.cookie_same_site@ == "Lax"@
        &&& views(self.safe_methods@) == seq!["GET"@, "HEAD"@, "OPTIONS"@, "TRACE"@]
        &&& self.skip_paths@.len() == 0
        &&& self.allowed_origins@.len() == 0
        &&& self.context_key@ == "csrf_token"@
    }

    /// Create new CSRF config.
    pub fn new() -> (res: Self)
        ensures
            res.is_default(),
    {
        let safe_methods = vec![
            String::from_str("GET"),
            String::from_str("HEAD"),
            String::from_str("OPTIONS"),
            String::from_str("TRACE"),
        ];
        assert(views(safe_methods@) =~= seq!["GET"@, "HEAD"@, "OPTIONS"@, "TRACE"@]);
        CsrfConfig {
            method: CsrfMethod::default(),
            cookie_name: String::from_str("_csrf"),
            header_name: String::from_str("X-CSRF-Token"),
            form_field: String::from_str("_csrf"),
            cookie_path: String::from_str("/"),
            cookie_secure: true,
            cookie_same_site: String::from_str("Lax"),
            safe_methods,
            skip_paths: Vec::new(),
            allowed_origins: Vec::new(),
            context_key: String::from_str("csrf_token"),
        }
    }

    /// Use double-submit cookie method.
    pub fn double_submit(self) -> (res: Self)
        ensures
            res == (CsrfConfig { method: CsrfMethod::DoubleSubmit, ..self }),
    {
        let mut c = self;
        c.method = CsrfMethod::DoubleSubmit;
        c
    }

    /// Use signed token method.
    pub fn signed_token(self, secret: &[u8], max_age: Duration) -> (res: Self)
        ensures
            res.method matches CsrfMethod::SignedToken { secret: s, max_age: m } && s@ == secret@ && m == max_age,
            res == (CsrfConfig { method: res.method, ..self }),
    {
        let mut c = self;
        c.method = CsrfMethod::SignedToken { secret: vstd::slice::slice_to_vec(secret), max_age };
        c
    }

    /// Use origin check only.
    pub fn origin_check(self) -> (res: Self)
        ensures
            res == (CsrfConfig { method: CsrfMethod::OriginCheck, ..self }),
    {
        let mut c = self;
        c.method = CsrfMethod::OriginCheck;
        c
    }

    /// Set cookie name.
    pub fn cookie_name(self, name: &str) -> (res: Self)
        ensures
            res.cookie_name@ == name@,
            res == (CsrfConfig { cookie_name: res.cookie_name, ..self }),
    {
        let mut c = self;
        c.cookie_name = owned(name);
        c
    }

    /// Set header name.
    pub fn header_name(self, name: &str) -> (res: Self)
        ensures
            res.header_name@ == name@,
            res == (CsrfConfig { header_name: res.header_name, ..self }),
    {
        let mut c = self;
        c.header_name = owned(name);
        c
    }

    /// Set form field name.
    pub fn form_field(self, name: &str) -> (res: Self)
        ensures
            res.form_field@ == name@,
            res == (CsrfConfig { form_field: res.form_field, ..self }),
    {
        let mut c = self;
        c.form_field = owned(name);
        c
    }

    /// Set cookie path.
    pub fn cookie_path(self, path: &str) -> (res: Self)
        ensures
            res.cookie_path@ == path@,
            res == (CsrfConfig { cookie_path: res.cookie_path, ..self }),
    {
        let mut c = self;
        c.cookie_path = owned(path);
        c
    }

    /// Set cookie secure flag.
    pub fn cookie_secure(self, secure: bool) -> (res: Self)
        ensures
            res == (CsrfConfig { cookie_secure: secure, ..self }),
    {
        let mut c = self;
        c.cookie_secure = secure;
        c
    }

    /// Set cookie SameSite attribute.
    pub fn cookie_same_site(self, same_site: &str) -> (res: Self)
        ensures
            res.cookie_same_site@ == same_site@,
            res == (CsrfConfig { cookie_same_site: res.cookie_same_site, ..self }),
    {
        let mut c = self;
        c.cookie_same_site = owned(same_site);
        c
    }

    /// Add a safe method (no CSRF check), in uppercase.
    pub fn safe_method(self, method: &str) -> (res: Self)
        ensures
            views(res.safe_methods@) == views(self.safe_methods@).push(unicode_uppercase(method@)),
            res == (CsrfConfig { safe_methods: res.safe_methods, ..self }),
    {
        let mut c = self;
        c.safe_methods.push(to_uppercase(method));
        assert(views(c.safe_methods@) =~= views(self.safe_methods@).push(unicode_uppercase(method@)));
        c
    }

    /// Add a path to skip CSRF protection.
    pub fn skip_path(self, path: &str) -> (res: Self)
        ensures
            views(res.skip_paths@) == views(self.skip_paths@).push(path@),
            res == (CsrfConfig { skip_paths: res.skip_paths, ..self }),
    {
        let mut c = self;
        c.skip_paths.push(owned(path));
        assert(views(c.skip_paths@) =~= views(self.skip_paths@).push(path@));
        c
    }

    /// Add an allowed origin for the origin check.
    pub fn allowed_origin(self, origin: &str) -> (res: Self)
        ensures
            views(res.allowed_origins@) == views(self.allowed_origins@).push(origin@),
            res == (CsrfConfig { allowed_origins: res.allowed_origins, ..self }),
    {
        let mut c = self;
        c.allowed_origins.push(owned(origin));
        assert(views(c.allowed_origins@) =~= views(self.allowed_origins@).push(origin@));
        c
    }

    /// Set context key.
    pub fn context_key(self, key: &str) -> (res: Self)
        ensures
            res.context_key@ == key@,
            res == (CsrfConfig { context_key: res.context_key, ..self }),
    {
        let mut c = self;
        c.context_key = owned(key);
        c
    }

    /// The default configuration (that of `new`).
    pub fn default() -> (res: Self)
        ensures
            res.is_default(),
    {
        Self::new()
    }
}

// ============================================================================
// Middleware
// ============================================================================

/// Whether `s` occurs in `v`.
pub open spec fn listed(v: Seq<String>, s: Seq<char>) -> bool {
    exists|i: int| 0 <= i < v.len() && #[trigger] v[i]@ == s
}

/// Whether some entry of `v` has the authority `a`.
pub open spec fn listed_authority(v: Seq<String>, a: Seq<char>) -> bool {
    exists|i: int| 0 <= i < v.len() && authority(#[trigger] v[i]@) == a
}

/// CSRF protection middleware.
pub struct CsrfMiddleware {
    pub config: CsrfConfig,
}

impl CsrfMiddleware {
    /// The cookie token of a request.
    pub open spec fn spec_cookie_token(&self, r: &Request) -> Option<Seq<char>> {
        r.cookie(self.config.cookie_name@)
    }

    /// The token a request submits: the header (by the lowercased header name),
    /// else the query parameter named as the form field.
    pub open spec fn spec_request_token(&self, r: &Request) -> Option<Seq<char>> {
        match r.header(unicode_lowercase(self.config.header_name@)) {
            Some(t) => Some(t),
            None => if r.query_params.to_map().dom().contains(self.config.form_field@) {
                Some(r.query_params.to_map()[self.config.form_field@]@)
            } else {
                None
            },
        }
    }

    /// Whether the Origin (else the Referer) of a request is acceptable: it must
    /// be listed exactly among the allowed origins (the Referer by authority), or,
    /// with no allowed origins, have the request's non-empty Host as its authority.
    pub open spec fn spec_origin_valid(&self, r: &Request) -> bool {
        match r.header("host"@) {
            None => false,
            Some(host) => if host.len() == 0 {
                false
            } else {
                match r.header("origin"@) {
                    Some(origin) => if self.config.allowed_origins@.len() > 0 {
                        listed(self.config.allowed_origins@, origin)
                    } else {
                        authority(origin) == host
                    },
                    None => match r.header("referer"@) {
                        Some(referer) => if self.config.allowed_origins@.len() > 0 {
                            listed_authority(self.config.allowed_origins@, authority(referer))
                        } else {
                            authority(referer) == host
                        },
                        None => false,
                    },
                }
            },
        }
    }

    /// Whether a request with an unsafe method passes the configured check at `now`.
    pub open spec fn spec_valid(&self, r: &Request, now: u64) -> bool {
        match self.config.method {
            CsrfMethod::DoubleSubmit => match (self.spec_cookie_token(r), self.spec_request_token(r)) {
                (Some(c), Some(t)) => c == t,
                _ => false,
            },
            CsrfMethod::SignedToken { secret, max_age } => match self.spec_request_token(r) {
                Some(t) => spec_verify_signed(t, secret@, max_age.secs, now),
                None => false,
            },
            CsrfMethod::OriginCheck => self.spec_origin_valid(r),
        }
    }

    /// Create new CSRF middleware with default config.
    pub fn new() -> (res: Self)
        ensures
            res.config.is_default(),
    {
        CsrfMiddleware { config: CsrfConfig::default() }
    }

    /// Create with config.
    pub fn with_config(config: CsrfConfig) -> (res: Self)
        ensures
            res.config == config,
    {
        CsrfMiddleware { config }
    }

    /// Create with the double-submit cookie pattern.
    pub fn double_submit() -> (res: Self)
        ensures
            res.config.is_default(),
    {
        CsrfMiddleware { config: CsrfConfig::new().double_submit() }
    }

    /// Create with tokens signed by `secret`, valid for an hour.
    pub fn signed(secret: &[u8]) -> (res: Self)
        ensures
            res.config.method matches CsrfMethod::SignedToken { secret: s, max_age: m } && s@ == secret@ && m.secs == 3600,
            res.config == (CsrfConfig { method: res.config.method, ..res.config }),
    {
        CsrfMiddleware { config: CsrfConfig::new().signed_token(secret, Duration::from_secs(3600)) }
    }

    /// Whether the method is one of the safe methods.
    pub fn is_safe_method(&self, method: &str) -> (res: bool)
        ensures
            res == listed(self.config.safe_methods@, method@),
    {
        let mut i: usize = 0;
        while i < self.config.safe_methods.len()
            invariant
                i <= self.config.safe_methods@.len(),
                forall|j: int| 0 <= j < i ==> #[trigger] self.config.safe_methods@[j]@ != method@,
            decreases self.config.safe_methods.len() - i,
        {
            if str_eq(self.config.safe_methods[i].as_str(), method) {
                return true;
            }
            i = i + 1;
        }
        false
    }

    /// Whether the path is one of the skipped paths.
    pub fn should_skip(&self, path: &str) -> (res: bool)
        ensures
            res == exists|i: int| 0 <= i < self.config.skip_paths@.len() && skip_match(path@, #[trigger] self.config.skip_paths@[i]@),
    {
        matches_any(path, &self.config.skip_paths)
    }

    /// The token in the request's cookie.
    pub fn get_cookie_token(&self, request: &Request) -> (res: Option<String>)
        requires
            request.wf(),
        ensures
            res matches Some(t) ==> self.spec_cookie_token(request) == Some(t@),
            res is None ==> self.spec_cookie_token(request) is None,
    {
        request.get_cookie(self.config.cookie_name.as_str())
    }

    /// The token the request submits.
    pub fn get_request_token(&self, request: &Request) -> (res: Option<String>)
        requires
            request.wf(),
        ensures
            res matches Some(t) ==> self.spec_request_token(request) == Some(t@),
            res is None ==> self.spec_request_token(request) is None,
    {
        let key = to_lowercase(self.config.header_name.as_str());
        match request.header_value(key.as_str()) {
            Some(t) => {
                return Some(owned(t));
            },
            None => {},
        }
        match request.query_params.get(self.config.form_field.as_str()) {
            Some(t) => Some(t.clone()),
            None => None,
        }
    }

    /// Validate the Origin/Referer headers.
    pub fn validate_origin(&self, request: &Request) -> (res: bool)
        requires
            request.wf(),
        ensures
            res == self.spec_origin_valid(request),
    {
        let host = match request.header_value("host") {
            Some(h) => h,
            None => {
                return false;
            },
        };
        if host.unicode_len() == 0 {
            return false;
        }
        match request.header_value("origin") {
            Some(origin) => {
                if self.config.allowed_origins.len() > 0 {
                    return self.origin_listed(origin);
                }
                return str_eq(origin_authority(origin), host);
            },
            None => {},
        }
        match request.header_value("referer") {
            Some(referer) => {
                let ref_authority = origin_authority(referer);
                if self.config.allowed_origins.len() > 0 {
                    return self.authority_listed(ref_authority);
                }
                str_eq(ref_authority, host)
            },
            None => false,
        }
    }

    fn origin_listed(&self, origin: &str) -> (res: bool)
        ensures
            res == listed(self.config.allowed_origins@, origin@),
    {
        let mut i: usize = 0;
        while i < self.config.allowed_origins.len()
            invariant
                i <= self.config.allowed_origins@.len(),
                forall|j: int| 0 <= j < i ==> #[trigger] self.config.allowed_origins@[j]@ != origin@,
            decreases self.config.allowed_origins.len() - i,
        {
            if str_eq(self.config.allowed_origins[i].as_str(), origin) {
                return true;
            }
            i = i + 1;
        }
        false
    }

    fn authority_listed(&self, a: &str) -> (res: bool)
        ensures
            res == listed_authority(self.config.allowed_origins@, a@),
    {
        let mut i: usize = 0;
        while i < self.config.allowed_origins.len()
            invariant
                i <= self.config.allowed_origins@.len(),
                forall|j: int| 0 <= j < i ==> authority(#[trigger] self.config.allowed_origins@[j]@) != a@,
            decreases self.config.allowed_origins.len() - i,
        {
            if str_eq(origin_authority(self.config.allowed_origins[i].as_str()), a) {
                return true;
            }
            i = i + 1;
        }
        false
    }

    /// The `Set-Cookie` value carrying `token`.
    pub open spec fn spec_cookie(&self, token: Seq<char>) -> Seq<char> {
        self.config.cookie_name@ + "="@ + token + "; Path="@ + self.config.cookie_path@
            + (if self.config.cookie_secure { "; Secure"@ } else { Seq::empty() })
            + "; SameSite="@ + self.config.cookie_same_site@
    }

    /// Build the cookie header value (readable by scripts: no `HttpOnly`).
    pub fn build_cookie(&self, token: &str) -> (res: String)
        ensures
            res@ == self.spec_cookie(token@),
    {
        let mut cookie = self.config.cookie_name.clone();
        cookie.append("=");
        cookie.append(token);
        cookie.append("; Path=");
        cookie.append(self.config.cookie_path.as_str());
        let ghost a = cookie@;
        if self.config.cookie_secure {
            cookie.append("; Secure");
        } else {
            assert(cookie@ =~= a + Seq::<char>::empty());
        }
        cookie.append("; SameSite=");
        cookie.append(self.config.cookie_same_site.as_str());
        cookie
    }

    /// Whether an unsafe request passes the configured check at time `now`.
    pub fn check_at(&self, request: &Request, now: u64) -> (res: bool)
        requires
            request.wf(),
        ensures
            res == self.spec_valid(request, now),
    {
        match &self.config.method {
            CsrfMethod::DoubleSubmit => {
                let cookie_token = self.get_cookie_token(request);
                let request_token = self.get_request_token(request);
                match (cookie_token, request_token) {
                    (Some(c), Some(r)) => secure_compare(c.as_str(), r.as_str()),
                    _ => false,
                }
            },
            CsrfMethod::SignedToken { secret, max_age } => {
                match self.get_request_token(request) {
                    Some(token) => CsrfToken::verify_signed_at(token.as_str(), secret.as_slice(), *max_age, now),
                    None => false,
                }
            },
            CsrfMethod::OriginCheck => self.validate_origin(request),
        }
    }

    /// Before the handler. A safe method gets a fresh token (signed when the
    /// method is signed tokens) in the context under the context key and goes
    /// on; a skipped path goes on; any other request goes on only when it
    /// passes the check, and is refused as forbidden (403) otherwise.
    pub fn before(&self, request: &mut Request) -> (res: Result<MiddlewareAction, MiddlewareError>)
        requires
            old(request).wf(),
        ensures
            final(request).wf(),
            listed(self.config.safe_methods@, old(request).method@) ==> {
                &&& res matches Ok(MiddlewareAction::Continue)
                &&& final(request).context.to_map().dom() == old(request).context.to_map().dom().insert(self.config.context_key@)
                &&& forall|k: Seq<char>| k != self.config.context_key@ && #[trigger] old(request).context.to_map().dom().contains(k)
                    ==> final(request).context.to_map()[k] == old(request).context.to_map()[k]
                &&& final(request).context_value(self.config.context_key@) matches Some(JsonValue::Str(t)) && match self.config.method {
                    CsrfMethod::SignedToken { secret, .. } => exists|ts: u64, nonce: Seq<u8>| nonce.len() == 16
                        && t@ == signed_token(secret@, signed_message(ts, nonce)),
                    _ => exists|b: Seq<u8>| b.len() == 32 && t@ == hex_of(b),
                }
                &&& final(request).method == old(request).method
                &&& final(request).path == old(request).path
                &&& final(request).headers == old(request).headers
                &&& final(request).query_params == old(request).query_params
                &&& final(request).body == old(request).body
            },
            !listed(self.config.safe_methods@, old(request).method@) ==> *final(request) == *old(request),
            !listed(self.config.safe_methods@, old(request).method@)
                && (exists|i: int| 0 <= i < self.config.skip_paths@.len() && skip_match(old(request).path@, #[trigger] self.config.skip_paths@[i]@))
                ==> res matches Ok(MiddlewareAction::Continue),
            !listed(self.config.safe_methods@, old(request).method@)
                && !(exists|i: int| 0 <= i < self.config.skip_paths@.len() && skip_match(old(request).path@, #[trigger] self.config.skip_paths@[i]@))
                ==> (res matches Ok(MiddlewareAction::Continue) || (res matches Err(e) && e.message@ == "CSRF token validation failed"@ && e.status == 403))
                    && (!(self.config.method is SignedToken) ==> (res is Ok <==> self.spec_valid(old(request), 0))),
    {
        if self.is_safe_method(request.method.as_str()) {
            let token = match &self.config.method {
                CsrfMethod::SignedToken { secret, .. } => CsrfToken::generate_signed(secret.as_slice()).token,
                _ => CsrfToken::generate().token,
            };
            request.set_context_internal(self.config.context_key.as_str(), JsonValue::Str(token));
            assert(request.context.to_map().dom() =~= old(request).context.to_map().dom().insert(self.config.context_key@));
            return Ok(MiddlewareAction::Continue);
        }
        if self.should_skip(request.path.as_str()) {
            return Ok(MiddlewareAction::Continue);
        }
        let now = unix_now_secs();
        if !self.check_at(request, now) {
            return Err(MiddlewareError::forbidden("CSRF token validation failed"));
        }
        Ok(MiddlewareAction::Continue)
    }

    /// After the handler: a safe request whose context holds a token gets it as
    /// a cookie.
    pub fn after(&self, request: &Request, response: &mut Response)
        requires
            request.wf(),
            old(response).wf(),
        ensures
            final(response).wf(),
            match (listed(self.config.safe_methods@, request.method@), request.context_value(self.config.context_key@)) {
                (true, Some(JsonValue::Str(t))) => final(response).header_map()
                    == old(response).header_map().insert("Set-Cookie"@, strip_ctl(self.spec_cookie(t@))),
                _ => final(response).header_map() == old(response).header_map(),
            },
            final(response).status == old(response).status,
            final(response).body == old(response).body,
    {
        if self.is_safe_method(request.method.as_str()) {
            match request.context.get(self.config.context_key.as_str()) {
                Some(JsonValue::Str(t)) => {
                    let cookie = self.build_cookie(t.as_str());
                    response.set_header("Set-Cookie", cookie.as_str());
                },
                _ => {},
            }
        }
    }

    /// Runs after session and authentication.
    pub fn priority(&self) -> (res: i32)
        ensures
            res == -30,
    {
        -30
    }

    /// The middleware's name.
    pub fn name(&self) -> (res: &'static str)
        ensures
            res@ == "csrf"@,
    {
        "csrf"
    }

    /// The default middleware (that of `new`).
    pub fn default() -> (res: Self)
        ensures
            res.config.is_default(),
    {
        Self::new()
    }
}

/// The token that the middleware left in the context, when it is a string.
pub open spec fn context_token(request: Request) -> Option<Seq<char>> {
    match request.context_value("csrf_token"@) {
        Some(crate::http::JsonValue::Str(s)) => Some(s@),
        _ => None,
    }
}

/// The CSRF token from the request context.
pub fn get_csrf_token(request: &Request) -> (res: Option<String>)
    requires
        request.wf(),
    ensures
        match context_token(*request) {
            Some(t) => res matches Some(r) && r@ == t,
            None => res is None,
        },
{
    request.get_context_str("csrf_token")
}

/// A hidden form field carrying the request's token, or nothing without one.
pub fn csrf_hidden_field(request: &Request) -> (res: String)
    requires
        request.wf(),
    ensures
        res@ == match context_token(*request) {
            Some(t) => "<input type=\"hidden\" name=\"_csrf\" value=\""@ + t + "\">"@,
            None => Seq::empty(),
        },
{
    match get_csrf_token(request) {
        Some(t) => {
            let mut s = String::from_str("<input type=\"hidden\" name=\"_csrf\" value=\"");
            s.append(t.as_str());
            s.append("\">");
            s
        },
        None => String::new(),
    }
}

/// A meta tag carrying the request's token (for scripts), or nothing without one.
pub fn csrf_meta_tag(request: &Request) -> (res: String)
    requires
        request.wf(),
    ensures
        res@ == match context_token(*request) {
            Some(t) => "<meta name=\"csrf-token\" content=\""@ + t + "\">"@,
            None => Seq::empty(),
        },
{
    match get_csrf_token(request) {
        Some(t) => {
            let mut s = String::from_str("<meta name=\"csrf-token\" content=\"");
            s.append(t.as_str());
            s.append("\">");
            s
        },
        None => String::new(),
    }
}

} // verus!
