//! Sessions: their data, an in-memory store with expiry, the session cookie,
//! and the middleware that loads a session before the handler and saves a new
//! one after it.
use vstd::prelude::*;
use vstd::string::*;
use crate::http::{JsonValue, MiddlewareAction, MiddlewareError, Request, Response, strip_ctl};
use crate::random::{hex_encode, lemma_hex_len, random_bytes};
use crate::strmap::{StrMap, keys_of, map_of};
use crate::text::{append_u64, dec, owned, str_eq, views};
use crate::pathmatch::skip_match;
use crate::request::json_same;
use crate::server::number_u64;
use crate::time::{Duration, unix_now_secs};

verus! {

/// SameSite cookie attribute.
#[derive(Debug, Clone, Copy, PartialEq, Eq, Structural)]
pub enum SameSite {
    Strict,
    Lax,
    /// Sent with cross-site requests too (the attribute value `None`).
    Unrestricted,
}

impl SameSite {
    /// The attribute's value.
    pub open spec fn spec_name(&self) -> Seq<char> {
        match self {
            SameSite::Strict => "Strict"@,
            SameSite::Lax => "Lax"@,
            SameSite::Unrestricted => "None"@,
        }
    }

    /// The attribute's value.
    pub fn to_string(&self) -> (res: String)
        ensures
            res@ == self.spec_name(),
    {
        match self {
            SameSite::Strict => String::from_str("Strict"),
            SameSite::Lax => String::from_str("Lax"),
            SameSite::Unrestricted => String::from_str("None"),
        }
    }
}

/// Cookie configuration for sessions.
pub struct CookieConfig {
    /// Cookie name
    pub name: String,
    /// Cookie path
    pub path: String,
    /// Cookie domain (optional)
    pub domain: Option<String>,
    /// Secure flag (HTTPS only)
    pub secure: bool,
    /// HttpOnly flag (no JS access)
    pub http_only: bool,
    /// SameSite attribute
    pub same_site: SameSite,
    /// Max age in seconds
    pub max_age: Option<u64>,
}

impl CookieConfig {
    /// The `Set-Cookie` value that sets the session id.
    pub open spec fn spec_cookie(&self, session_id: Seq<char>) -> Seq<char> {
        self.name@ + "="@ + session_id + "; Path="@ + self.path@
            + (match self.domain { Some(d) => "; Domain="@ + d@, None => Seq::empty() })
            + (if self.secure { "; Secure"@ } else { Seq::empty() })
            + (if self.http_only { "; HttpOnly"@ } else { Seq::empty() })
            + "; SameSite="@ + self.same_site.spec_name()
            + (match self.max_age { Some(m) => "; Max-Age="@ + dec(m as nat), None => Seq::empty() })
    }

    /// The `Set-Cookie` value that deletes the session cookie, keeping its flags.
    pub open spec fn spec_delete_cookie(&self) -> Seq<char> {
        self.name@ + "=; Path="@ + self.path@ + "; Max-Age=0; Expires=Thu, 01 Jan 1970 00:00:00 GMT"@
            + (if self.secure { "; Secure"@ } else { Seq::empty() })
            + (if self.http_only { "; HttpOnly"@ } else { Seq::empty() })
            + "; SameSite="@ + self.same_site.spec_name()
    }

    /// A cookie named `name`: path `/`, no domain, secure, HTTP only, `Lax`, no max age.
    pub fn new(name: &str) -> (res: Self)
        ensures
            res.name@ == name@,
            res.path@ == "/"@,
            res.domain is None,
            res.secure,
            res.http_only,
            res.same_site == SameSite::Lax,
            res.max_age is None,
    {
        CookieConfig {
            name: owned(name),
            path: String::from_str("/"),
            domain: None,
            secure: true,
            http_only: true,
            same_site: SameSite::Lax,
            max_age: None,
        }
    }

    /// Set the cookie path.
    pub fn path(self, path: &str) -> (res: Self)
        ensures
            res.path@ == path@,
            res == (CookieConfig { path: res.path, ..self }),
    {
        let mut c = self;
        c.path = owned(path);
        c
    }

    /// Set the cookie domain.
    pub fn domain(self, domain: &str) -> (res: Self)
        ensures
            res.domain matches Some(d) && d@ == domain@,
            res == (CookieConfig { domain: res.domain, ..self }),
    {
        let mut c = self;
        c.domain = Some(owned(domain));
        c
    }

    /// Set the Secure flag.
    pub fn secure(self, secure: bool) -> (res: Self)
        ensures
            res == (CookieConfig { secure, ..self }),
    {
        let mut c = self;
        c.secure = secure;
        c
    }

    /// Set the HttpOnly flag.
    pub fn http_only(self, http_only: bool) -> (res: Self)
        ensures
            res == (CookieConfig { http_only, ..self }),
    {
        let mut c = self;
        c.http_only = http_only;
        c
    }

    /// Set the SameSite attribute.
    pub fn same_site(self, same_site: SameSite) -> (res: Self)
        ensures
            res == (CookieConfig { same_site, ..self }),
    {
        let mut c = self;
        c.same_site = same_site;
        c
    }

    /// Set the max age in seconds.
    pub fn max_age(self, seconds: u64) -> (res: Self)
        ensures
            res == (CookieConfig { max_age: Some(seconds), ..self }),
    {
        let mut c = self;
        c.max_age = Some(seconds);
        c
    }

    /// Build the `Set-Cookie` value for a session id.
    pub fn build_cookie(&self, session_id: &str) -> (res: String)
        ensures
            res@ == self.spec_cookie(session_id@),
    {
        let mut cookie = self.name.clone();
        cookie.append("=");
        cookie.append(session_id);
        cookie.append("; Path=");
        cookie.append(self.path.as_str());
        let ghost a = cookie@;
        match &self.domain {
            Some(d) => {
                cookie.append("; Domain=");
                cookie.append(d.as_str());
            },
            None => {
                assert(cookie@ =~= a + Seq::<char>::empty());
            },
        }
        let ghost b = cookie@;
        if self.secure {
            cookie.append("; Secure");
        } else {
            assert(cookie@ =~= b + Seq::<char>::empty());
        }
        let ghost c = cookie@;
        if self.http_only {
            cookie.append("; HttpOnly");
        } else {
            assert(cookie@ =~= c + Seq::<char>::empty());
        }
        cookie.append("; SameSite=");
        let ss = self.same_site.to_string();
        cookie.append(ss.as_str());
        let ghost d = cookie@;
        match self.max_age {
            Some(m) => {
                cookie.append("; Max-Age=");
                append_u64(&mut cookie, m);
            },
            None => {
                assert(cookie@ =~= d + Seq::<char>::empty());
            },
        }
        cookie
    }

    /// Build the `Set-Cookie` value that deletes the cookie.
    pub fn build_delete_cookie(&self) -> (res: String)
        ensures
            res@ == self.spec_delete_cookie(),
    {
        let mut cookie = self.name.clone();
        cookie.append("=; Path=");
        cookie.append(self.path.as_str());
        cookie.append("; Max-Age=0; Expires=Thu, 01 Jan 1970 00:00:00 GMT");
        let ghost b = cookie@;
        if self.secure {
            cookie.append("; Secure");
        } else {
            assert(cookie@ =~= b + Seq::<char>::empty());
        }
        let ghost c = cookie@;
        if self.http_only {
            cookie.append("; HttpOnly");
        } else {
            assert(cookie@ =~= c + Seq::<char>::empty());
        }
        cookie.append("; SameSite=");
        let ss = self.same_site.to_string();
        cookie.append(ss.as_str());
        cookie
    }

    /// The default: a cookie named `session_id`.
    pub fn default() -> (res: Self)
        ensures
            res.name@ == "session_id"@,
            res.path@ == "/"@,
            res.domain is None,
            res.secure,
            res.http_only,
            res.same_site == SameSite::Lax,
            res.max_age is None,
    {
        Self::new("session_id")
    }
}

// ============================================================================
// Session data
// ============================================================================

/// The data of one session.
pub struct SessionData {
    /// Session values
    pub data: StrMap<JsonValue>,
    /// Creation time (Unix seconds)
    pub created_at: u64,
    /// Last access time (Unix seconds)
    pub last_accessed: u64,
    /// Whether the values have changed
    pub modified: bool,
}

impl SessionData {
    pub open spec fn wf(&self) -> bool {
        self.data.wf()
    }

    /// The values by key.
    pub open spec fn values(&self) -> Map<Seq<char>, JsonValue> {
        self.data.to_map()
    }

    /// An empty session created at `now`.
    pub fn new_at(now: u64) -> (res: Self)
        ensures
            res.wf(),
            res.values() == Map::<Seq<char>, JsonValue>::empty(),
            res.created_at == now,
            res.last_accessed == now,
            !res.modified,
    {
        SessionData { data: StrMap::new(), created_at: now, last_accessed: now, modified: false }
    }

    /// An empty session created now.
    pub fn new() -> (res: Self)
        ensures
            res.wf(),
            res.values() == Map::<Seq<char>, JsonValue>::empty(),
            res.created_at == res.last_accessed,
            !res.modified,
    {
        Self::new_at(unix_now_secs())
    }

    /// The value under `key`.
    pub fn get(&self, key: &str) -> (res: Option<&JsonValue>)
        requires
            self.wf(),
        ensures
            res matches Some(v) ==> self.values().dom().contains(key@) && *v == self.values()[key@],
            res is None ==> !self.values().dom().contains(key@),
    {
        self.data.get(key)
    }

    /// The value under `key`, when it is a string.
    pub fn get_string(&self, key: &str) -> (res: Option<String>)
        requires
            self.wf(),
        ensures
            match (if self.values().dom().contains(key@) { Some(self.values()[key@]) } else { None::<JsonValue> }) {
                Some(JsonValue::Str(v)) => res matches Some(r) && r@ == v@,
                _ => res is None,
            },
    {
        match self.data.get(key) {
            Some(JsonValue::Str(v)) => Some(v.clone()),
            _ => None,
        }
    }

    /// Set a value; the session is then modified.
    pub fn set(&mut self, key: &str, value: JsonValue)
        requires
            old(self).wf(),
        ensures
            final(self).wf(),
            final(self).values() == old(self).values().insert(key@, value),
            final(self).modified,
            final(self).created_at == old(self).created_at,
            final(self).last_accessed == old(self).last_accessed,
    {
        self.data.insert(owned(key), value);
        self.modified = true;
    }

    /// Remove a value, returning it; the session is then modified.
    pub fn remove(&mut self, key: &str) -> (res: Option<JsonValue>)
        requires
            old(self).wf(),
        ensures
            final(self).wf(),
            final(self).values() == old(self).values().remove(key@),
            res matches Some(v) ==> old(self).values().dom().contains(key@) && v == old(self).values()[key@],
            res is None ==> !old(self).values().dom().contains(key@),
            final(self).modified,
            final(self).created_at == old(self).created_at,
            final(self).last_accessed == old(self).last_accessed,
    {
        self.modified = true;
        self.data.remove(key)
    }

    /// Whether a value is set under `key`.
    pub fn contains(&self, key: &str) -> (res: bool)
        ensures
            res == self.values().dom().contains(key@),
    {
        self.data.contains_key(key)
    }

    /// Remove every value; the session is then modified.
    pub fn clear(&mut self)
        ensures
            final(self).wf(),
            final(self).values() == Map::<Seq<char>, JsonValue>::empty(),
            final(self).modified,
            final(self).created_at == old(self).created_at,
            final(self).last_accessed == old(self).last_accessed,
    {
        self.data.clear();
        self.modified = true;
    }

    /// The keys, in the order they were first set.
    pub fn keys(&self) -> (res: Vec<String>)
        ensures
            views(res@) == keys_of(self.data.seq()),
    {
        let mut out: Vec<String> = Vec::new();
        let mut i: usize = 0;
        while i < self.data.entries.len()
            invariant
                i <= self.data.seq().len(),
                views(out@) == keys_of(self.data.seq()).subrange(0, i as int),
            decreases self.data.entries.len() - i,
        {
            let ghost before = out@;
            out.push(self.data.entries[i].0.clone());
            assert(views(out@) =~= views(before).push(self.data.seq()[i as int].0@));
            assert(keys_of(self.data.seq())[i as int] == self.data.seq()[i as int].0@);
            assert(views(out@) =~= keys_of(self.data.seq()).subrange(0, i as int + 1));
            i = i + 1;
        }
        assert(keys_of(self.data.seq()).subrange(0, self.data.seq().len() as int) =~= keys_of(self.data.seq()));
        out
    }

    /// Record an access at `now`.
    pub fn touch_at(&mut self, now: u64)
        ensures
            *final(self) == (SessionData { last_accessed: now, ..*old(self) }),
    {
        self.last_accessed = now;
    }

    /// Record an access now.
    pub fn touch(&mut self)
        ensures
            *final(self) == (SessionData { last_accessed: final(self).last_accessed, ..*old(self) }),
    {
        self.last_accessed = unix_now_secs();
    }

    /// Whether the session has gone unused for longer than `max_age` at `now`
    /// (the seconds since the last access are counted modulo 2^64, as
    /// unsigned subtraction wraps).
    pub fn is_expired_at(&self, max_age: Duration, now: u64) -> (res: bool)
        ensures
            res == (now.wrapping_sub(self.last_accessed) > max_age.secs),
    {
        now.wrapping_sub(self.last_accessed) > max_age.as_secs()
    }

    /// Whether the session has gone unused for longer than `max_age`.
    pub fn is_expired(&self, max_age: Duration) -> (res: bool) {
        self.is_expired_at(max_age, unix_now_secs())
    }
}

impl Default for SessionData {
    fn default() -> (res: Self)
        ensures
            res.wf(),
            res.values() == Map::<Seq<char>, JsonValue>::empty(),
            !res.modified,
    {
        Self::new()
    }
}

// ============================================================================
// In-memory store
// ============================================================================

/// Sessions by id, each with the moment it expires: nanoseconds after the
/// store was created.
pub struct InMemorySessionStore {
    pub sessions: StrMap<(SessionData, u128)>,
    pub default_ttl: Duration,
    pub origin: std::time::Instant,
}

/// The data of a session that has not expired at `now`.
pub open spec fn live_session(m: Map<Seq<char>, (SessionData, u128)>, id: Seq<char>, now: u128) -> Option<SessionData> {
    if m.dom().contains(id) && m[id].1 > now {
        Some(m[id].0)
    } else {
        None
    }
}

/// What `now + ttl` is in nanoseconds (saturating).
pub open spec fn expiry(now: u128, ttl: Duration) -> u128 {
    if now as nat + ttl.total_nanos() > u128::MAX as nat {
        u128::MAX
    } else {
        (now as nat + ttl.total_nanos()) as u128
    }
}

impl InMemorySessionStore {
    pub open spec fn wf(&self) -> bool {
        self.sessions.wf()
    }

    /// The sessions by id, with their expiry.
    pub open spec fn entries(&self) -> Map<Seq<char>, (SessionData, u128)> {
        self.sessions.to_map()
    }

    /// An empty store, with a default lifetime of an hour.
    pub fn new() -> (res: Self)
        ensures
            res.wf(),
            res.entries() == Map::<Seq<char>, (SessionData, u128)>::empty(),
            res.default_ttl.secs == 3600 && res.default_ttl.nanos == 0,
    {
        InMemorySessionStore { sessions: StrMap::new(), default_ttl: Duration::from_secs(3600), origin: crate::cluster::instant_now() }
    }

    /// An empty store with a default lifetime.
    pub fn with_ttl(ttl: Duration) -> (res: Self)
        ensures
            res.wf(),
            res.entries() == Map::<Seq<char>, (SessionData, u128)>::empty(),
            res.default_ttl == ttl,
    {
        InMemorySessionStore { sessions: StrMap::new(), default_ttl: ttl, origin: crate::cluster::instant_now() }
    }

    /// The number of sessions kept (expired ones not yet cleaned up included).
    pub fn count(&self) -> (res: usize)
        requires
            self.wf(),
        ensures
            res == self.entries().dom().len(),
    {
        proof {
            self.sessions.lemma_len();
        }
        self.sessions.len()
    }

    /// The time now, in nanoseconds since the store was created.
    fn now(&self) -> u128 {
        crate::cluster::elapsed_nanos(&self.origin)
    }

    /// The session `id`, unless it has expired at `now`.
    pub fn get_at(&self, id: &str, now: u128) -> (res: Option<&SessionData>)
        requires
            self.wf(),
        ensures
            match live_session(self.entries(), id@, now) {
                Some(d) => res matches Some(r) && *r == d,
                None => res is None,
            },
    {
        match self.sessions.get(id) {
            Some(entry) => if entry.1 > now { Some(&entry.0) } else { None },
            None => None,
        }
    }

    /// The session `id`, unless it has expired.
    pub fn get(&self, id: &str) -> (res: Option<&SessionData>)
        requires
            self.wf(),
        ensures
            res matches Some(r) ==> self.entries().dom().contains(id@) && *r == self.entries()[id@].0,
    {
        let now = self.now();
        self.get_at(id, now)
    }

    /// Keep session `id` until `ttl` after `now`.
    pub fn set_at(&mut self, id: &str, data: SessionData, ttl: Duration, now: u128)
        requires
            old(self).wf(),
        ensures
            final(self).wf(),
            final(self).entries() == old(self).entries().insert(id@, (data, expiry(now, ttl))),
            final(self).default_ttl == old(self).default_ttl,
    {
        let ttl_nanos: u128 = ttl.secs as u128 * 1_000_000_000 + ttl.nanos as u128;
        let expires = now.saturating_add(ttl_nanos);
        self.sessions.insert(owned(id), (data, expires));
    }

    /// Keep session `id` for `ttl` from now.
    pub fn set(&mut self, id: &str, data: SessionData, ttl: Duration)
        requires
            old(self).wf(),
        ensures
            final(self).wf(),
            final(self).entries().dom() == old(self).entries().dom().insert(id@),
            final(self).entries()[id@].0 == data,
            forall|k: Seq<char>| k != id@ && #[trigger] old(self).entries().dom().contains(k)
                ==> final(self).entries()[k] == old(self).entries()[k],
    {
        let now = self.now();
        self.set_at(id, data, ttl, now);
        assert(self.entries().dom() =~= old(self).entries().dom().insert(id@));
    }

    /// Forget session `id`.
    pub fn delete(&mut self, id: &str)
        requires
            old(self).wf(),
        ensures
            final(self).wf(),
            final(self).entries() == old(self).entries().remove(id@),
    {
        self.sessions.remove(id);
    }

    /// Whether session `id` is kept and has not expired at `now`.
    pub fn session_exists_at(&self, id: &str, now: u128) -> (res: bool)
        requires
            self.wf(),
        ensures
            res == live_session(self.entries(), id@, now) is Some,
    {
        self.get_at(id, now).is_some()
    }

    /// Whether session `id` is kept and has not expired.
    pub fn session_exists(&self, id: &str) -> (res: bool)
        requires
            self.wf(),
        ensures
            res ==> self.entries().dom().contains(id@),
    {
        let now = self.now();
        self.session_exists_at(id, now)
    }

    /// Forget every session expired at `now`.
    pub fn cleanup_at(&mut self, now: u128)
        requires
            old(self).wf(),
        ensures
            final(self).wf(),
            forall|k: Seq<char>| #[trigger] final(self).entries().dom().contains(k)
                <==> live_session(old(self).entries(), k, now) is Some,
            forall|k: Seq<char>| #[trigger] final(self).entries().dom().contains(k)
                ==> final(self).entries()[k] == old(self).entries()[k],
    {
        let ghost s0 = self.sessions.entries@;
        let mut kept: StrMap<(SessionData, u128)> = StrMap::new();
        let ghost n0 = s0.len();
        while self.sessions.entries.len() > 0
            invariant
                kept.wf(),
                crate::strmap::unique_keys(s0),
                self.sessions.entries@.len() <= s0.len(),
                self.sessions.entries@ == s0.subrange(0, self.sessions.entries@.len() as int),
                forall|k: Seq<char>| #[trigger] kept.to_map().dom().contains(k)
                    <==> (exists|j: int| self.sessions.entries@.len() <= j < s0.len() && s0[j].0@ == k && s0[j].1.1 > now),
                forall|j: int| self.sessions.entries@.len() <= j < s0.len() && s0[j].1.1 > now
                    ==> #[trigger] kept.to_map()[s0[j].0@] == s0[j].1,
            decreases self.sessions.entries.len(),
        {
            let ghost n = self.sessions.entries@.len() - 1;
            let e = self.sessions.entries.pop().unwrap();
            proof {
                assert(e == s0[n]);
            }
            if e.1.1 > now {
                kept.insert(e.0, e.1);
                proof {
                    assert forall|j: int| n < j < s0.len() && s0[j].1.1 > now
                        implies #[trigger] kept.to_map()[s0[j].0@] == s0[j].1 by {
                        assert(s0[n].0@ != s0[j].0@);
                    }
                }
            }
            assert(self.sessions.entries@ =~= s0.subrange(0, n));
        }
        proof {
            let m0 = map_of(s0);
            assert forall|k: Seq<char>| #[trigger] kept.to_map().dom().contains(k)
                <==> live_session(m0, k, now) is Some by {
                if m0.dom().contains(k) {
                    let j = choose|j: int| 0 <= j < s0.len() && s0[j].0@ == k;
                    crate::strmap::lemma_map_of_at(s0, j);
                }
                if kept.to_map().dom().contains(k) {
                    let j = choose|j: int| 0 <= j < s0.len() && s0[j].0@ == k && s0[j].1.1 > now;
                    crate::strmap::lemma_map_of_at(s0, j);
                }
            }
            assert forall|k: Seq<char>| #[trigger] kept.to_map().dom().contains(k) implies kept.to_map()[k] == m0[k] by {
                let j = choose|j: int| 0 <= j < s0.len() && s0[j].0@ == k && s0[j].1.1 > now;
                crate::strmap::lemma_map_of_at(s0, j);
            }
        }
        self.sessions = kept;
    }

    /// Forget every expired session.
    pub fn cleanup(&mut self)
        requires
            old(self).wf(),
        ensures
            final(self).wf(),
            forall|k: Seq<char>| #[trigger] final(self).entries().dom().contains(k)
                ==> old(self).entries().dom().contains(k) && final(self).entries()[k] == old(self).entries()[k],
    {
        let now = self.now();
        self.cleanup_at(now);
    }

    /// A fresh session id: 32 random bytes in hex.
    pub fn generate_id(&self) -> (res: String)
        ensures
            res@.len() == 64,
    {
        let bytes = random_bytes(32);
        proof {
            lemma_hex_len(bytes@);
        }
        hex_encode(bytes.as_slice())
    }
}

/// A session stored at `now` with a lifetime can be read back, unchanged, at
/// any time before that lifetime ends, and is gone from then on.
pub proof fn lemma_store_read_back(
    m: Map<Seq<char>, (SessionData, u128)>,
    id: Seq<char>,
    data: SessionData,
    ttl: Duration,
    now: u128,
    t: u128,
)
    ensures
        t < expiry(now, ttl) ==> live_session(m.insert(id, (data, expiry(now, ttl))), id, t) == Some(data),
        t >= expiry(now, ttl) ==> live_session(m.insert(id, (data, expiry(now, ttl))), id, t) is None,
{
}

/// A deleted session is gone.
pub proof fn lemma_store_delete(m: Map<Seq<char>, (SessionData, u128)>, id: Seq<char>, t: u128)
    ensures
        live_session(m.remove(id), id, t) is None,
{
}

// ============================================================================
// The session in the request context
// ============================================================================

/// The two members that record a session's times.
pub open spec fn is_time_key(k: Seq<char>) -> bool {
    k == "created_at"@ || k == "last_accessed"@
}

/// The members of a session object that are session values, in order.
pub open spec fn value_entries(fields: Seq<(String, JsonValue)>) -> Seq<(String, JsonValue)>
    decreases fields.len(),
{
    if fields.len() == 0 {
        Seq::empty()
    } else {
        let rest = value_entries(fields.drop_last());
        if is_time_key(fields.last().0@) { rest } else { rest.push(fields.last()) }
    }
}

/// The map that inserting the entries in turn builds.
pub open spec fn entries_map(es: Seq<(String, JsonValue)>) -> Map<Seq<char>, JsonValue>
    decreases es.len(),
{
    if es.len() == 0 {
        Map::empty()
    } else {
        entries_map(es.drop_last()).insert(es.last().0@, es.last().1)
    }
}

/// What a session object in the context holds: its creation and access
/// times (numbers that fit in 64 bits) and its values; nothing when it is not
/// such an object.
pub open spec fn decode_session(v: JsonValue) -> Option<(u64, u64, Seq<(String, JsonValue)>)> {
    match v {
        JsonValue::Object(f) => match (crate::http::member(f@, "created_at"@), crate::http::member(f@, "last_accessed"@)) {
            (Some(c), Some(l)) => match (crate::server::json_u64(c), crate::server::json_u64(l)) {
                (Some(cn), Some(ln)) => Some((cn, ln, value_entries(f@))),
                _ => None,
            },
            _ => None,
        },
        _ => None,
    }
}

/// Two lists of entries hold the same keys and the same data, in order.
pub open spec fn entries_same(a: Seq<(String, JsonValue)>, b: Seq<(String, JsonValue)>) -> bool {
    a.len() == b.len() && forall|i: int| 0 <= i < a.len() ==> (#[trigger] a[i]).0 == b[i].0
        && crate::request::json_same(a[i].1, b[i].1)
}

/// The session, as last accessed at `last_accessed`, as a context object: its
/// values (but those named like the time members), then `created_at` and
/// `last_accessed`.
fn encode_session(d: &SessionData, last_accessed: u64) -> (res: JsonValue)
    ensures
        decode_session(res) matches Some((c, l, es)) && c == d.created_at && l == last_accessed
            && entries_same(value_entries(d.data.seq()), es),
{
    let mut out: Vec<(String, JsonValue)> = Vec::new();
    let mut i: usize = 0;
    let ghost src = d.data.seq();
    while i < d.data.entries.len()
        invariant
            i <= src.len(),
            src == d.data.seq(),
            entries_same(value_entries(src.subrange(0, i as int)), out@),
            forall|j: int| 0 <= j < out@.len() ==> !is_time_key((#[trigger] out@[j]).0@),
        decreases d.data.entries.len() - i,
    {
        assert(src.subrange(0, i as int + 1).drop_last() =~= src.subrange(0, i as int));
        let key = &d.data.entries[i].0;
        let reserved = str_eq(key.as_str(), "created_at") || str_eq(key.as_str(), "last_accessed");
        if !reserved {
            out.push((key.clone(), d.data.entries[i].1.copy()));
        }
        i = i + 1;
    }
    assert(src.subrange(0, src.len() as int) =~= src);
    let ghost kept = out@;
    out.push((String::from_str("created_at"), JsonValue::Number(crate::text::u64_to_string(d.created_at))));
    out.push((String::from_str("last_accessed"), JsonValue::Number(crate::text::u64_to_string(last_accessed))));
    proof {
        reveal_strlit("created_at");
        reveal_strlit("last_accessed");
        let f = out@;
        assert(f.drop_last().drop_last() =~= kept);
        lemma_value_entries_kept(kept);
        assert(f.drop_last().last().0@ == "created_at"@);
        assert(value_entries(f) == value_entries(f.drop_last()));
        assert(value_entries(f.drop_last()) == value_entries(kept));
        lemma_member_after(kept, "created_at"@, f[kept.len() as int], f[kept.len() as int + 1]);
        crate::text::lemma_dec_digits(d.created_at as nat);
        crate::text::lemma_dec_digits(last_accessed as nat);
        lemma_member_last(kept.push(f[kept.len() as int]), "last_accessed"@, f[kept.len() as int + 1]);
        assert(kept.push(f[kept.len() as int]).push(f[kept.len() as int + 1]) =~= f);
    }
    JsonValue::Object(out)
}

/// Entries without time keys are all session values.
proof fn lemma_value_entries_kept(es: Seq<(String, JsonValue)>)
    requires
        forall|j: int| 0 <= j < es.len() ==> !is_time_key((#[trigger] es[j]).0@),
    ensures
        value_entries(es) == es,
    decreases es.len(),
{
    if es.len() > 0 {
        lemma_value_entries_kept(es.drop_last());
        assert(es.drop_last().push(es.last()) =~= es);
    }
}

/// A member not found among entries without the key is found in what follows.
proof fn lemma_member_after(es: Seq<(String, JsonValue)>, key: Seq<char>, e: (String, JsonValue), more: (String, JsonValue))
    requires
        forall|j: int| 0 <= j < es.len() ==> (#[trigger] es[j]).0@ != key,
        e.0@ == key,
    ensures
        crate::http::member(es.push(e).push(more), key) == Some(e.1),
    decreases es.len(),
{
    let all = es.push(e).push(more);
    if es.len() > 0 {
        assert(all.drop_first() =~= es.drop_first().push(e).push(more));
        lemma_member_after(es.drop_first(), key, e, more);
    }
}

/// A key found only at the end is found there.
proof fn lemma_member_last(es: Seq<(String, JsonValue)>, key: Seq<char>, e: (String, JsonValue))
    requires
        forall|j: int| 0 <= j < es.len() ==> (#[trigger] es[j]).0@ != key,
        e.0@ == key,
    ensures
        crate::http::member(es.push(e), key) == Some(e.1),
    decreases es.len(),
{
    if es.len() > 0 {
        assert(es.push(e).drop_first() =~= es.drop_first().push(e));
        lemma_member_last(es.drop_first(), key, e);
    }
}

/// A session decoded from a context object with times `c` and `l` and value
/// members `es`: unmodified, with those times, and with the values that
/// inserting the members in turn gives (as copies).
pub open spec fn session_decoded(d: SessionData, c: u64, l: u64, es: Seq<(String, JsonValue)>) -> bool {
    &&& d.wf()
    &&& d.created_at == c
    &&& d.last_accessed == l
    &&& !d.modified
    &&& d.values().dom() == entries_map(es).dom()
    &&& forall|k: Seq<char>| #[trigger] d.values().dom().contains(k) ==> json_same(entries_map(es)[k], d.values()[k])
}

/// The session a context object stands for (see `decode_session`).
fn decode_session_value(v: &JsonValue) -> (res: Option<SessionData>)
    ensures
        match decode_session(*v) {
            Some((c, l, es)) => res matches Some(d) && session_decoded(d, c, l, es),
            None => res is None,
        },
{
    let cv = match v.get("created_at") {
        Some(x) => x,
        None => {
            return None;
        },
    };
    let lv = match v.get("last_accessed") {
        Some(x) => x,
        None => {
            return None;
        },
    };
    let cn = match cv {
        JsonValue::Number(t) => number_u64(t),
        _ => None,
    };
    let ln = match lv {
        JsonValue::Number(t) => number_u64(t),
        _ => None,
    };
    let (c, l) = match (cn, ln) {
        (Some(c), Some(l)) => (c, l),
        _ => {
            return None;
        },
    };
    match v {
        JsonValue::Object(fields) => {
            let mut data: StrMap<JsonValue> = StrMap::new();
            let mut i: usize = 0;
            while i < fields.len()
                invariant
                    i <= fields@.len(),
                    data.wf(),
                    data.to_map().dom() == entries_map(value_entries(fields@.subrange(0, i as int))).dom(),
                    forall|k: Seq<char>| #[trigger] data.to_map().dom().contains(k) ==> json_same(
                        entries_map(value_entries(fields@.subrange(0, i as int)))[k],
                        data.to_map()[k],
                    ),
                decreases fields.len() - i,
            {
                let ghost pre = fields@.subrange(0, i as int);
                assert(fields@.subrange(0, i as int + 1).drop_last() =~= pre);
                assert(fields@.subrange(0, i as int + 1).last() == fields@[i as int]);
                let key = &fields[i].0;
                let reserved = str_eq(key.as_str(), "created_at") || str_eq(key.as_str(), "last_accessed");
                if !reserved {
                    data.insert(key.clone(), fields[i].1.copy());
                    proof {
                        let sub = fields@.subrange(0, i as int + 1);
                        assert(!is_time_key(sub.last().0@));
                        let ve = value_entries(pre).push(fields@[i as int]);
                        assert(value_entries(sub) == ve);
                        assert(ve.drop_last() =~= value_entries(pre));
                        let em = entries_map(value_entries(sub));
                        assert(em == entries_map(value_entries(pre)).insert(key@, fields@[i as int].1));
                        assert(em.dom() =~= data.to_map().dom());
                    }
                }
                i = i + 1;
            }
            assert(fields@.subrange(0, fields@.len() as int) =~= fields@);
            Some(SessionData { data, created_at: c, last_accessed: l, modified: false })
        },
        _ => None,
    }
}

/// Session middleware: loads the session named by the request's cookie (or
/// starts one) into the request context, and keeps a new session in the store
/// afterwards, setting its cookie.
pub struct SessionMiddleware {
    pub store: InMemorySessionStore,
    pub cookie_config: CookieConfig,
    pub session_ttl: Duration,
    pub regenerate_on_auth: bool,
    pub skip_paths: Vec<String>,
}

/// The session a request continues, when its cookie names one that is live at
/// `now`: the id and the session.
pub open spec fn continued_session(
    store: Map<Seq<char>, (SessionData, u128)>,
    cookie: Option<Seq<char>>,
    now: u128,
) -> Option<(Seq<char>, SessionData)> {
    match cookie {
        Some(id) => match live_session(store, id, now) {
            Some(d) => Some((id, d)),
            None => None,
        },
        None => None,
    }
}

impl SessionMiddleware {
    pub open spec fn wf(&self) -> bool {
        self.store.wf()
    }

    /// Whether the path is skipped.
    pub open spec fn skipped(&self, path: Seq<char>) -> bool {
        exists|i: int| 0 <= i < self.skip_paths@.len() && skip_match(path, #[trigger] self.skip_paths@[i]@)
    }

    /// Session middleware with the given store: the default cookie, sessions
    /// kept an hour, regeneration on authentication, no skipped paths.
    pub fn with_store(store: InMemorySessionStore) -> (res: Self)
        ensures
            res.store == store,
            res.cookie_config.name@ == "session_id"@,
            res.cookie_config.path@ == "/"@,
            res.cookie_config.domain is None,
            res.cookie_config.secure && res.cookie_config.http_only,
            res.cookie_config.same_site == SameSite::Lax,
            res.cookie_config.max_age is None,
            res.session_ttl.secs == 3600 && res.session_ttl.nanos == 0,
            res.regenerate_on_auth,
            res.skip_paths@.len() == 0,
    {
        SessionMiddleware {
            store,
            cookie_config: CookieConfig::default(),
            session_ttl: Duration::from_secs(3600),
            regenerate_on_auth: true,
            skip_paths: Vec::new(),
        }
    }

    /// Session middleware with an empty in-memory store (see `with_store`).
    pub fn new() -> (res: Self)
        ensures
            res.wf(),
            res.store.entries() == Map::<Seq<char>, (SessionData, u128)>::empty(),
            res.cookie_config.name@ == "session_id"@,
            res.cookie_config.path@ == "/"@,
            res.cookie_config.domain is None,
            res.cookie_config.secure && res.cookie_config.http_only,
            res.cookie_config.same_site == SameSite::Lax,
            res.cookie_config.max_age is None,
            res.session_ttl.secs == 3600 && res.session_ttl.nanos == 0,
            res.regenerate_on_auth,
            res.skip_paths@.len() == 0,
    {
        Self::with_store(InMemorySessionStore::new())
    }

    /// Set the cookie configuration.
    pub fn cookie(self, config: CookieConfig) -> (res: Self)
        ensures
            res == (SessionMiddleware { cookie_config: config, ..self }),
    {
        let mut m = self;
        m.cookie_config = config;
        m
    }

    /// Set the cookie name.
    pub fn cookie_name(self, name: &str) -> (res: Self)
        ensures
            res.cookie_config.name@ == name@,
            res.cookie_config == (CookieConfig { name: res.cookie_config.name, ..self.cookie_config }),
            res == (SessionMiddleware { cookie_config: res.cookie_config, ..self }),
    {
        let mut m = self;
        m.cookie_config.name = owned(name);
        m
    }

    /// Set the cookie path.
    pub fn cookie_path(self, path: &str) -> (res: Self)
        ensures
            res.cookie_config.path@ == path@,
            res.cookie_config == (CookieConfig { path: res.cookie_config.path, ..self.cookie_config }),
            res == (SessionMiddleware { cookie_config: res.cookie_config, ..self }),
    {
        let mut m = self;
        m.cookie_config.path = owned(path);
        m
    }

    /// Set (or clear) the cookie domain.
    pub fn cookie_domain(self, domain: Option<&str>) -> (res: Self)
        ensures
            match domain {
                Some(d) => res.cookie_config.domain matches Some(rd) && rd@ == d@,
                None => res.cookie_config.domain is None,
            },
            res.cookie_config == (CookieConfig { domain: res.cookie_config.domain, ..self.cookie_config }),
            res == (SessionMiddleware { cookie_config: res.cookie_config, ..self }),
    {
        let mut m = self;
        m.cookie_config.domain = match domain {
            Some(d) => Some(owned(d)),
            None => None,
        };
        m
    }

    /// Set the cookie's Secure flag.
    pub fn cookie_secure(self, enabled: bool) -> (res: Self)
        ensures
            res == (SessionMiddleware { cookie_config: CookieConfig { secure: enabled, ..self.cookie_config }, ..self }),
    {
        let mut m = self;
        m.cookie_config.secure = enabled;
        m
    }

    /// Set the cookie's HttpOnly flag.
    pub fn cookie_http_only(self, enabled: bool) -> (res: Self)
        ensures
            res == (SessionMiddleware { cookie_config: CookieConfig { http_only: enabled, ..self.cookie_config }, ..self }),
    {
        let mut m = self;
        m.cookie_config.http_only = enabled;
        m
    }

    /// Set the cookie's SameSite attribute.
    pub fn cookie_same_site(self, same_site: SameSite) -> (res: Self)
        ensures
            res == (SessionMiddleware { cookie_config: CookieConfig { same_site, ..self.cookie_config }, ..self }),
    {
        let mut m = self;
        m.cookie_config.same_site = same_site;
        m
    }

    /// Set how long sessions are kept; the cookie's max age follows it, in
    /// whole seconds, unless one was set.
    pub fn ttl(self, ttl: Duration) -> (res: Self)
        ensures
            res.session_ttl == ttl,
            res.cookie_config.max_age == match self.cookie_config.max_age {
                Some(a) => Some(a),
                None => Some(ttl.secs),
            },
            res.cookie_config == (CookieConfig { max_age: res.cookie_config.max_age, ..self.cookie_config }),
            res == (SessionMiddleware { session_ttl: ttl, cookie_config: res.cookie_config, ..self }),
    {
        let mut m = self;
        m.session_ttl = ttl;
        if m.cookie_config.max_age.is_none() {
            m.cookie_config.max_age = Some(ttl.secs);
        }
        m
    }

    /// Enable or disable regeneration on authentication changes.
    pub fn regenerate_on_auth(self, regenerate: bool) -> (res: Self)
        ensures
            res == (SessionMiddleware { regenerate_on_auth: regenerate, ..self }),
    {
        let mut m = self;
        m.regenerate_on_auth = regenerate;
        m
    }

    /// Skip sessions for a path (and what lies under it).
    pub fn skip_path(self, path: &str) -> (res: Self)
        ensures
            views(res.skip_paths@) == views(self.skip_paths@).push(path@),
            res == (SessionMiddleware { skip_paths: res.skip_paths, ..self }),
    {
        let mut m = self;
        m.skip_paths.push(owned(path));
        assert(views(m.skip_paths@) =~= views(self.skip_paths@).push(path@));
        m
    }

    /// Load the session into the request context at `now` (store time) and
    /// `unix_now` (Unix seconds): the session the cookie names when it is live,
    /// with its access time set to `unix_now`, else a new session created then
    /// under `fresh_id`. The context gets `session_id`, `session` (the session
    /// as an object, see `decode_session`) and `session_is_new`; skipped paths
    /// leave the request as it is.
    pub fn before_at(&self, request: &mut Request, now: u128, unix_now: u64, fresh_id: &str) -> (res: Result<MiddlewareAction, MiddlewareError>)
        requires
            self.wf(),
            old(request).wf(),
        ensures
            res matches Ok(MiddlewareAction::Continue),
            final(request).wf(),
            self.skipped(old(request).path@) ==> *final(request) == *old(request),
            !self.skipped(old(request).path@) ==> {
                let found = continued_session(self.store.entries(), old(request).cookie(self.cookie_config.name@), now);
                let (id, created, is_new) = match found {
                    Some((fid, d)) => (fid, d.created_at, false),
                    None => (fresh_id@, unix_now, true),
                };
                &&& final(request).context_value("session_id"@) matches Some(JsonValue::Str(sid)) && sid@ == id
                &&& final(request).context_value("session_is_new"@) == Some(JsonValue::Bool(is_new))
                &&& final(request).context_value("session"@) matches Some(sv) && decode_session(sv) matches Some((c, l, es))
                    && c == created && l == unix_now
                    && match found {
                        Some((_, d)) => entries_same(value_entries(d.data.seq()), es),
                        None => es.len() == 0,
                    }
                &&& forall|k: Seq<char>| k != "session_id"@ && k != "session_is_new"@ && k != "session"@
                    ==> #[trigger] final(request).context_value(k) == old(request).context_value(k)
                &&& final(request).method == old(request).method
                &&& final(request).path == old(request).path
                &&& final(request).headers == old(request).headers
                &&& final(request).query_params == old(request).query_params
                &&& final(request).body == old(request).body
                &&& final(request).params == old(request).params
            },
    {
        if crate::pathmatch::matches_any(request.path.as_str(), &self.skip_paths) {
            return Ok(MiddlewareAction::Continue);
        }
        let cookie = request.get_cookie(self.cookie_config.name.as_str());
        let found: Option<(String, &SessionData)> = match cookie {
            Some(id) => match self.store.get_at(id.as_str(), now) {
                Some(d) => Some((id, d)),
                None => None,
            },
            None => None,
        };
        let ghost cont = continued_session(self.store.entries(), request.cookie(self.cookie_config.name@), now);
        assert(match found {
            Some((fid, d)) => cont == Some((fid@, *d)),
            None => cont is None,
        });
        let (id, sv, is_new) = match found {
            Some((id, d)) => (id, encode_session(d, unix_now), false),
            None => {
                let d = SessionData::new_at(unix_now);
                proof {
                    assert(d.data.seq().len() == 0) by {
                        d.data.lemma_len();
                    }
                    assert(value_entries(d.data.seq()) =~= Seq::<(String, JsonValue)>::empty());
                }
                (owned(fresh_id), encode_session(&d, unix_now), true)
            },
        };
        let ghost r0 = *request;
        let ghost svv = sv;
        let idj = JsonValue::Str(id);
        let ghost idjv = idj;
        request.set_context_internal("session_id", idj);
        request.set_context_internal("session", sv);
        request.set_context_internal("session_is_new", JsonValue::Bool(is_new));
        proof {
            reveal_strlit("session_id");
            reveal_strlit("session");
            reveal_strlit("session_is_new");
            assert("session_id"@.len() == 10 && "session"@.len() == 7 && "session_is_new"@.len() == 14);
            assert("session_id"@ != "session_is_new"@ && "session"@ != "session_is_new"@);
            let m = request.context.to_map();
            assert(m == r0.context.to_map().insert("session_id"@, idjv).insert("session"@, svv).insert(
                "session_is_new"@,
                JsonValue::Bool(is_new),
            ));
            assert(request.context_value("session_id"@) == Some(idjv));
            assert(request.context_value("session"@) == Some(svv));
            assert(request.context_value("session_is_new"@) == Some(JsonValue::Bool(is_new)));
            assert forall|k: Seq<char>| k != "session_id"@ && k != "session_is_new"@ && k != "session"@
                implies #[trigger] request.context_value(k) == r0.context_value(k) by {
                assert(m.dom().contains(k) == r0.context.to_map().dom().contains(k));
            }
        }
        Ok(MiddlewareAction::Continue)
    }

    /// Load the session into the request context now (see `before_at`).
    pub fn before(&self, request: &mut Request) -> (res: Result<MiddlewareAction, MiddlewareError>)
        requires
            self.wf(),
            old(request).wf(),
        ensures
            res matches Ok(MiddlewareAction::Continue),
            final(request).wf(),
    {
        let now = self.store.now();
        let unix_now = unix_now_secs();
        let fresh = self.store.generate_id();
        self.before_at(request, now, unix_now, fresh.as_str())
    }

    /// The session id the context holds, when it is a string.
    pub open spec fn context_session_id(request: &Request) -> Option<Seq<char>> {
        match request.context_value("session_id"@) {
            Some(JsonValue::Str(s)) => Some(s@),
            _ => None,
        }
    }

    /// The session the context holds, decoded (see `decode_session`).
    pub open spec fn context_session(request: &Request) -> Option<(u64, u64, Seq<(String, JsonValue)>)> {
        match request.context_value("session"@) {
            Some(v) => decode_session(v),
            None => None,
        }
    }

    /// Whether the handler's request carries a new session to keep: the path is
    /// not skipped, the context holds a session id and a session, and marks it
    /// new (a session read back from the context is never modified).
    pub open spec fn saves_session(&self, request: &Request) -> bool {
        &&& !self.skipped(request.path@)
        &&& Self::context_session_id(request) is Some
        &&& Self::context_session(request) is Some
        &&& request.context_value("session_is_new"@) == Some(JsonValue::Bool(true))
    }

    /// Keep a new session after the handler, at `now` (store time), for the
    /// session lifetime, and set its cookie on the response; anything else
    /// leaves the store and the response as they are.
    pub fn after_at(&mut self, request: &Request, response: &mut Response, now: u128)
        requires
            old(self).wf(),
            request.wf(),
            old(response).wf(),
        ensures
            final(self).wf(),
            final(response).wf(),
            final(self).cookie_config == old(self).cookie_config,
            final(self).session_ttl == old(self).session_ttl,
            final(self).regenerate_on_auth == old(self).regenerate_on_auth,
            final(self).skip_paths == old(self).skip_paths,
            final(self).store.default_ttl == old(self).store.default_ttl,
            old(self).saves_session(request) ==> {
                let id = Self::context_session_id(request)->0;
                let (c, l, es) = Self::context_session(request)->0;
                &&& exists|d: SessionData| session_decoded(d, c, l, es)
                    && #[trigger] final(self).store.entries() == old(self).store.entries().insert(
                        id,
                        (d, expiry(now, old(self).session_ttl)),
                    )
                &&& final(response).header_map() == old(response).header_map().insert(
                    "Set-Cookie"@,
                    strip_ctl(old(self).cookie_config.spec_cookie(id)),
                )
                &&& final(response).status == old(response).status
                &&& final(response).body == old(response).body
                &&& final(response).content_type == old(response).content_type
            },
            !old(self).saves_session(request) ==> final(self).store.entries() == old(self).store.entries()
                && *final(response) == *old(response),
    {
        if crate::pathmatch::matches_any(request.path.as_str(), &self.skip_paths) {
            return;
        }
        let sid = request.get_context_str("session_id");
        let data = match request.context.get("session") {
            Some(v) => decode_session_value(v),
            None => None,
        };
        let is_new = match request.context.get("session_is_new") {
            Some(JsonValue::Bool(b)) => *b,
            _ => false,
        };
        match (sid, data) {
            (Some(id), Some(d)) => {
                let ghost dv = d;
                if is_new || d.modified {
                    let ttl = self.session_ttl;
                    self.store.set_at(id.as_str(), d, ttl, now);
                }
                if is_new {
                    let c = self.cookie_config.build_cookie(id.as_str());
                    response.set_header("Set-Cookie", c.as_str());
                    assert(self.store.entries() == old(self).store.entries().insert(
                        id@,
                        (dv, expiry(now, old(self).session_ttl)),
                    ));
                }
            },
            _ => {},
        }
    }

    /// Keep a new session after the handler, now (see `after_at`).
    pub fn after(&mut self, request: &Request, response: &mut Response)
        requires
            old(self).wf(),
            request.wf(),
            old(response).wf(),
        ensures
            final(self).wf(),
            final(response).wf(),
    {
        let now = self.store.now();
        self.after_at(request, response, now);
    }
}

/// Give the session in the request context a new id, at `unix_now`: the
/// session the context holds (a new one created at `unix_now` when it holds
/// none) is kept under `fresh_id` and marked new, and the old id, when the
/// context holds one, is deleted from the store. Returns the new id.
pub fn regenerate_session_at(
    request: &mut Request,
    store: &mut InMemorySessionStore,
    fresh_id: &str,
    unix_now: u64,
) -> (res: String)
    requires
        old(request).wf(),
        old(store).wf(),
    ensures
        res@ == fresh_id@,
        final(request).wf(),
        final(store).wf(),
        final(store).entries() == match SessionMiddleware::context_session_id(old(request)) {
            Some(id) => old(store).entries().remove(id),
            None => old(store).entries(),
        },
        final(request).context_value("session_id"@) matches Some(JsonValue::Str(sid)) && sid@ == fresh_id@,
        final(request).context_value("session_is_new"@) == Some(JsonValue::Bool(true)),
        final(request).context_value("session"@) matches Some(sv) && decode_session(sv) matches Some((c, l, es))
            && match SessionMiddleware::context_session(old(request)) {
                Some((c0, l0, es0)) => c == c0 && l == l0 && exists|d: SessionData|
                    #[trigger] session_decoded(d, c0, l0, es0) && entries_same(value_entries(d.data.seq()), es),
                None => c == unix_now && l == unix_now && es.len() == 0,
            },
        forall|k: Seq<char>| k != "session_id"@ && k != "session_is_new"@ && k != "session"@
            ==> #[trigger] final(request).context_value(k) == old(request).context_value(k),
        final(request).path == old(request).path,
        final(request).headers == old(request).headers,
{
    let old_data = match request.context.get("session") {
        Some(v) => decode_session_value(v),
        None => None,
    };
    let d = match old_data {
        Some(d) => d,
        None => SessionData::new_at(unix_now),
    };
    proof {
        d.data.lemma_len();
        if old_data is None {
            assert(value_entries(d.data.seq()) =~= Seq::<(String, JsonValue)>::empty());
        }
    }
    let ghost dv = d;
    let la = d.last_accessed;
    let sv = encode_session(&d, la);
    match request.get_context_str("session_id") {
        Some(old_id) => store.delete(old_id.as_str()),
        None => {},
    }
    let ghost r0 = *request;
    let ghost svv = sv;
    let new_id = owned(fresh_id);
    request.set_context_internal("session_id", JsonValue::Str(owned(fresh_id)));
    let ghost idjv = request.context.to_map()["session_id"@];
    request.set_context_internal("session", sv);
    request.set_context_internal("session_is_new", JsonValue::Bool(true));
    proof {
        reveal_strlit("session_id");
        reveal_strlit("session");
        reveal_strlit("session_is_new");
        assert("session_id"@.len() == 10 && "session"@.len() == 7 && "session_is_new"@.len() == 14);
        assert("session_id"@ != "session_is_new"@ && "session"@ != "session_is_new"@);
        let m = request.context.to_map();
        assert(m == r0.context.to_map().insert("session_id"@, idjv).insert("session"@, svv).insert(
            "session_is_new"@,
            JsonValue::Bool(true),
        ));
        assert(request.context_value("session"@) == Some(svv));
        assert forall|k: Seq<char>| k != "session_id"@ && k != "session_is_new"@ && k != "session"@
            implies #[trigger] request.context_value(k) == r0.context_value(k) by {
            assert(m.dom().contains(k) == r0.context.to_map().dom().contains(k));
        }
        match SessionMiddleware::context_session(&r0) {
            Some((c0, l0, es0)) => {
                assert(session_decoded(dv, c0, l0, es0));
            },
            None => {},
        }
    }
    new_id
}

/// Give the session in the request context a new id, now (see
/// `regenerate_session_at`).
pub fn regenerate_session(request: &mut Request, store: &mut InMemorySessionStore) -> (res: String)
    requires
        old(request).wf(),
        old(store).wf(),
    ensures
        res@.len() == 64,
        final(request).wf(),
        final(store).wf(),
{
    let fresh = store.generate_id();
    let unix_now = unix_now_secs();
    regenerate_session_at(request, store, fresh.as_str(), unix_now)
}

/// End the session in the request context: its id, when the context holds
/// one, is deleted from the store, and `session_id` and `session` leave the
/// context.
pub fn destroy_session(request: &mut Request, store: &mut InMemorySessionStore)
    requires
        old(request).wf(),
        old(store).wf(),
    ensures
        final(request).wf(),
        final(store).wf(),
        final(store).entries() == match SessionMiddleware::context_session_id(old(request)) {
            Some(id) => old(store).entries().remove(id),
            None => old(store).entries(),
        },
        final(request).context.to_map() == old(request).context.to_map().remove("session_id"@).remove("session"@),
        final(request).path == old(request).path,
        final(request).headers == old(request).headers,
{
    match request.get_context_str("session_id") {
        Some(id) => store.delete(id.as_str()),
        None => {},
    }
    request.context.remove("session_id");
    request.context.remove("session");
}

} // verus!
