//! Response caching: cache keys, cached entries with time-to-live, an
//! in-memory store with tag invalidation and a size bound, and the decisions
//! of the caching middleware (what is cached, hits, conditional answers).
use vstd::prelude::*;
use vstd::string::*;
use crate::http::{Request, Response, strip_ctl};
use crate::pathmatch::{matches_any, skip_match};
use crate::strmap::StrMap;
use crate::text::{
    append_u64, chars_of, dec, join, join_strings, owned, parse_u64, parse_uint, split_char, split_str, str_eq,
    str_trim, trim, views,
};

verus! {

// ============================================================================
// Ordering of strings
// ============================================================================

/// Lexicographic order of strings by code point (the order of `String`).
pub open spec fn seq_lt(a: Seq<char>, b: Seq<char>) -> bool
    decreases a.len(),
{
    if a.len() == 0 {
        b.len() > 0
    } else if b.len() == 0 {
        false
    } else if (a[0] as int) < (b[0] as int) {
        true
    } else if (a[0] as int) > (b[0] as int) {
        false
    } else {
        seq_lt(a.drop_first(), b.drop_first())
    }
}

/// Whether `a` sorts before `b`.
pub fn str_lt(a: &str, b: &str) -> (res: bool)
    ensures
        res == seq_lt(a@, b@),
{
    let va = chars_of(a);
    let vb = chars_of(b);
    let mut i: usize = 0;
    assert(va@.subrange(0, va@.len() as int) =~= va@);
    assert(vb@.subrange(0, vb@.len() as int) =~= vb@);
    while i < va.len() && i < vb.len() && va[i] == vb[i]
        invariant
            va@ == a@,
            vb@ == b@,
            i <= va@.len(),
            i <= vb@.len(),
            seq_lt(a@, b@) == seq_lt(va@.subrange(i as int, va@.len() as int), vb@.subrange(i as int, vb@.len() as int)),
        decreases va.len() - i,
    {
        proof {
            let x = va@.subrange(i as int, va@.len() as int);
            let y = vb@.subrange(i as int, vb@.len() as int);
            assert(x.drop_first() =~= va@.subrange(i + 1, va@.len() as int));
            assert(y.drop_first() =~= vb@.subrange(i + 1, vb@.len() as int));
        }
        i = i + 1;
    }
    proof {
        assert(va@.subrange(0, va@.len() as int) =~= va@);
        assert(vb@.subrange(0, vb@.len() as int) =~= vb@);
    }
    if i == va.len() {
        return i < vb.len();
    }
    if i == vb.len() {
        return false;
    }
    proof {
        let x = va@.subrange(i as int, va@.len() as int);
        let y = vb@.subrange(i as int, vb@.len() as int);
        assert(x[0] == va@[i as int] && y[0] == vb@[i as int]);
    }
    va[i] < vb[i]
}

proof fn lemma_seq_lt_irreflexive(a: Seq<char>)
    ensures
        !seq_lt(a, a),
    decreases a.len(),
{
    if a.len() > 0 {
        lemma_seq_lt_irreflexive(a.drop_first());
    }
}

/// Two different strings are ordered one way or the other.
proof fn lemma_seq_lt_total(a: Seq<char>, b: Seq<char>)
    requires
        a != b,
    ensures
        seq_lt(a, b) || seq_lt(b, a),
    decreases a.len(),
{
    if a.len() > 0 && b.len() > 0 && a[0] == b[0] {
        if a.drop_first() == b.drop_first() {
            assert(a =~= seq![a[0]] + a.drop_first());
            assert(b =~= seq![b[0]] + b.drop_first());
        }
        lemma_seq_lt_total(a.drop_first(), b.drop_first());
    } else if a.len() == 0 && b.len() == 0 {
        assert(a =~= b);
    }
}

proof fn lemma_seq_lt_transitive(a: Seq<char>, b: Seq<char>, c: Seq<char>)
    requires
        seq_lt(a, b),
        seq_lt(b, c),
    ensures
        seq_lt(a, c),
    decreases a.len(),
{
    if a.len() > 0 && b.len() > 0 && c.len() > 0 && a[0] == b[0] && b[0] == c[0] {
        lemma_seq_lt_transitive(a.drop_first(), b.drop_first(), c.drop_first());
    }
}

proof fn lemma_seq_lt_asymmetric(a: Seq<char>, b: Seq<char>)
    requires
        seq_lt(a, b),
    ensures
        !seq_lt(b, a),
    decreases a.len(),
{
    if a.len() > 0 && b.len() > 0 && a[0] == b[0] {
        lemma_seq_lt_asymmetric(a.drop_first(), b.drop_first());
    }
}

// ============================================================================
// Sorting query parameters by name
// ============================================================================

/// The entries of a list of string pairs, as character sequences.
pub open spec fn pair_views(s: Seq<(String, String)>) -> Seq<(Seq<char>, Seq<char>)> {
    s.map_values(|e: (String, String)| (e.0@, e.1@))
}

/// `sorted` with `x` placed before the first entry whose name sorts after it.
pub open spec fn insert_by_key(sorted: Seq<(Seq<char>, Seq<char>)>, x: (Seq<char>, Seq<char>)) -> Seq<(Seq<char>, Seq<char>)>
    decreases sorted.len(),
{
    if sorted.len() == 0 {
        seq![x]
    } else if seq_lt(x.0, sorted[0].0) {
        seq![x] + sorted
    } else {
        seq![sorted[0]] + insert_by_key(sorted.drop_first(), x)
    }
}

/// The entries ordered by name (insertion order among equal names).
pub open spec fn sort_by_key(s: Seq<(Seq<char>, Seq<char>)>) -> Seq<(Seq<char>, Seq<char>)>
    decreases s.len(),
{
    if s.len() == 0 {
        s
    } else {
        insert_by_key(sort_by_key(s.drop_last()), s.last())
    }
}

/// The entries are in non-decreasing name order.
pub open spec fn sorted_by_key(s: Seq<(Seq<char>, Seq<char>)>) -> bool {
    forall|i: int, j: int| 0 <= i < j < s.len() ==> !seq_lt(s[j].0, s[i].0)
}

proof fn lemma_insert_by_key(sorted: Seq<(Seq<char>, Seq<char>)>, x: (Seq<char>, Seq<char>))
    requires
        sorted_by_key(sorted),
    ensures
        sorted_by_key(insert_by_key(sorted, x)),
        insert_by_key(sorted, x).to_multiset() == sorted.to_multiset().insert(x),
    decreases sorted.len(),
{
    broadcast use vstd::seq_lib::group_to_multiset_ensures;
    let r = insert_by_key(sorted, x);
    if sorted.len() == 0 {
        assert(r =~= Seq::<(Seq<char>, Seq<char>)>::empty().push(x));
    } else if seq_lt(x.0, sorted[0].0) {
        assert forall|i: int, j: int| 0 <= i < j < r.len() implies !seq_lt(r[j].0, r[i].0) by {
            if i == 0 {
                let y = sorted[j - 1];
                if j - 1 > 0 {
                    assert(!seq_lt(y.0, sorted[0].0));
                    if seq_lt(y.0, x.0) {
                        lemma_seq_lt_transitive(y.0, x.0, sorted[0].0);
                    }
                } else {
                    lemma_seq_lt_asymmetric(x.0, sorted[0].0);
                }
            } else {
                assert(r[i] == sorted[i - 1] && r[j] == sorted[j - 1]);
            }
        }
        assert(r =~= sorted.insert(0, x));
    } else {
        let t = sorted.drop_first();
        assert(sorted_by_key(t)) by {
            assert forall|i: int, j: int| 0 <= i < j < t.len() implies !seq_lt(t[j].0, t[i].0) by {
                assert(t[i] == sorted[i + 1] && t[j] == sorted[j + 1]);
            }
        }
        lemma_insert_by_key(t, x);
        let rt = insert_by_key(t, x);
        assert forall|i: int, j: int| 0 <= i < j < r.len() implies !seq_lt(r[j].0, r[i].0) by {
            if i == 0 {
                assert(r[j] == rt[j - 1]);
                assert(rt.to_multiset().contains(rt[j - 1]));
                if rt[j - 1] != x {
                    assert(t.to_multiset().contains(rt[j - 1]));
                    let k = choose|k: int| 0 <= k < t.len() && t[k] == rt[j - 1];
                    assert(sorted[k + 1] == t[k]);
                }
            } else {
                assert(r[i] == rt[i - 1] && r[j] == rt[j - 1]);
            }
        }
        assert(r =~= seq![sorted[0]] + rt);
        assert(sorted =~= seq![sorted[0]] + t);
        vstd::seq_lib::lemma_multiset_commutative(seq![sorted[0]], rt);
        vstd::seq_lib::lemma_multiset_commutative(seq![sorted[0]], t);
    }
}

/// Sorting by name orders the entries and keeps every one of them.
pub proof fn lemma_sort_by_key(s: Seq<(Seq<char>, Seq<char>)>)
    ensures
        sorted_by_key(sort_by_key(s)),
        sort_by_key(s).to_multiset() == s.to_multiset(),
    decreases s.len(),
{
    broadcast use vstd::seq_lib::group_to_multiset_ensures;
    if s.len() > 0 {
        lemma_sort_by_key(s.drop_last());
        lemma_insert_by_key(sort_by_key(s.drop_last()), s.last());
        assert(s =~= s.drop_last().push(s.last()));
    }
}

/// Insert `x` into the sorted `v` as `insert_by_key` does.
fn insert_sorted(v: &mut Vec<(String, String)>, x: (String, String))
    ensures
        pair_views(final(v)@) == insert_by_key(pair_views(old(v)@), (x.0@, x.1@)),
{
    let ghost s0 = pair_views(v@);
    let ghost xv = (x.0@, x.1@);
    let mut k: usize = 0;
    assert(s0.subrange(0, 0) + s0.subrange(0, s0.len() as int) =~= s0);
    while k < v.len() && !str_lt(x.0.as_str(), v[k].0.as_str())
        invariant
            pair_views(v@) == s0,
            xv == (x.0@, x.1@),
            k <= s0.len(),
            insert_by_key(s0, xv) == s0.subrange(0, k as int) + insert_by_key(s0.subrange(k as int, s0.len() as int), xv),
        decreases v.len() - k,
    {
        proof {
            let rest = s0.subrange(k as int, s0.len() as int);
            assert(rest[0] == s0[k as int]);
            assert(rest.drop_first() =~= s0.subrange(k + 1, s0.len() as int));
            assert(insert_by_key(rest, xv) == seq![rest[0]] + insert_by_key(rest.drop_first(), xv));
            assert(s0.subrange(0, k as int) + (seq![s0[k as int]] + insert_by_key(rest.drop_first(), xv))
                =~= s0.subrange(0, k + 1) + insert_by_key(rest.drop_first(), xv));
        }
        k = k + 1;
    }
    proof {
        let rest = s0.subrange(k as int, s0.len() as int);
        if k < s0.len() {
            assert(rest[0] == s0[k as int]);
            assert(insert_by_key(rest, xv) == seq![xv] + rest);
        } else {
            assert(rest =~= Seq::<(Seq<char>, Seq<char>)>::empty());
            assert(insert_by_key(rest, xv) == seq![xv]);
        }
        assert(s0.subrange(0, k as int) + insert_by_key(rest, xv) =~= s0.insert(k as int, xv));
    }
    v.insert(k, x);
    assert(pair_views(v@) =~= s0.insert(k as int, xv));
}

/// The query parameters ordered by name.
pub fn sorted_query(q: &StrMap<String>) -> (res: Vec<(String, String)>)
    ensures
        pair_views(res@) == sort_by_key(pair_views(q.entries@)),
{
    let ghost all = pair_views(q.entries@);
    let mut out: Vec<(String, String)> = Vec::new();
    let mut i: usize = 0;
    assert(all.subrange(0, 0) =~= Seq::<(Seq<char>, Seq<char>)>::empty());
    assert(pair_views(out@) =~= Seq::<(Seq<char>, Seq<char>)>::empty());
    while i < q.entries.len()
        invariant
            all == pair_views(q.entries@),
            i <= q.entries@.len(),
            pair_views(out@) == sort_by_key(all.subrange(0, i as int)),
        decreases q.entries.len() - i,
    {
        let e = (q.entries[i].0.clone(), q.entries[i].1.clone());
        insert_sorted(&mut out, e);
        assert(all.subrange(0, i as int + 1).drop_last() =~= all.subrange(0, i as int));
        i = i + 1;
    }
    assert(all.subrange(0, all.len() as int) =~= all);
    out
}

// ============================================================================
// Cache keys
// ============================================================================

/// `name=value` for each parameter, joined by `&`.
pub open spec fn query_text(sorted: Seq<(Seq<char>, Seq<char>)>) -> Seq<char> {
    join(sorted.map_values(|e: (Seq<char>, Seq<char>)| e.0 + "="@ + e.1), "&"@)
}

/// `name:value` for each listed header the request carries (looked up exactly).
pub open spec fn header_parts(names: Seq<String>, r: Request) -> Seq<Seq<char>>
    decreases names.len(),
{
    if names.len() == 0 {
        Seq::empty()
    } else {
        let init = header_parts(names.drop_last(), r);
        match r.header(names.last()@) {
            Some(v) => init.push(names.last()@ + ":"@ + v),
            None => init,
        }
    }
}

/// The `name=value&...` text of the query parameters in name order.
fn query_string(q: &StrMap<String>) -> (res: String)
    ensures
        res@ == query_text(sort_by_key(pair_views(q.entries@))),
{
    let sorted = sorted_query(q);
    let ghost sv = pair_views(sorted@);
    let mut parts: Vec<String> = Vec::new();
    let mut i: usize = 0;
    while i < sorted.len()
        invariant
            sv == pair_views(sorted@),
            i <= sorted@.len(),
            parts@.len() == i,
            forall|j: int| 0 <= j < i ==> #[trigger] parts@[j]@ == sv[j].0 + "="@ + sv[j].1,
        decreases sorted.len() - i,
    {
        let mut p = sorted[i].0.clone();
        p.append("=");
        p.append(sorted[i].1.as_str());
        parts.push(p);
        i = i + 1;
    }
    assert(views(parts@) =~= sv.map_values(|e: (Seq<char>, Seq<char>)| e.0 + "="@ + e.1));
    join_strings(&parts, "&")
}

/// Default cache key builder.
pub struct DefaultCacheKeyBuilder {
    pub include_query: bool,
    pub include_headers: Vec<String>,
    pub include_user: bool,
}

impl DefaultCacheKeyBuilder {
    /// The key parts: method, path, the sorted query (when included and
    /// present), the listed headers present, and the user (when included and known).
    pub open spec fn spec_parts(&self, r: Request, user: Option<Seq<char>>) -> Seq<Seq<char>> {
        seq![r.method@, r.path@]
            + (if self.include_query && r.query_params.entries@.len() > 0 {
                seq![query_text(sort_by_key(pair_views(r.query_params.entries@)))]
            } else {
                Seq::empty()
            })
            + header_parts(self.include_headers@, r)
            + (if self.include_user && user is Some { seq!["user:"@ + user->0] } else { Seq::empty() })
    }

    /// Query parameters in, no headers, no user.
    pub fn new() -> (res: Self)
        ensures
            res.include_query,
            res.include_headers@.len() == 0,
            !res.include_user,
    {
        DefaultCacheKeyBuilder { include_query: true, include_headers: Vec::new(), include_user: false }
    }

    /// Include the query parameters or not.
    pub fn include_query(self, include_query: bool) -> (res: Self)
        ensures
            res == (DefaultCacheKeyBuilder { include_query, ..self }),
    {
        let mut b = self;
        b.include_query = include_query;
        b
    }

    /// Include exactly these headers.
    pub fn include_headers(self, headers: Vec<&str>) -> (res: Self)
        ensures
            views(res.include_headers@) == crate::text::ref_views(headers@),
            res.include_query == self.include_query,
            res.include_user == self.include_user,
    {
        let mut b = self;
        b.include_headers = crate::security::to_strings(&headers);
        b
    }

    /// Include the user or not.
    pub fn include_user(self, include_user: bool) -> (res: Self)
        ensures
            res == (DefaultCacheKeyBuilder { include_user, ..self }),
    {
        let mut b = self;
        b.include_user = include_user;
        b
    }

    /// The cache key of a request (`user` is the id of the request's user, when known).
    pub fn build_key(&self, request: &Request, user: Option<&str>) -> (res: String)
        requires
            request.wf(),
        ensures
            res@ == join(self.spec_parts(*request, match user { Some(u) => Some(u@), None => None }), "|"@),
    {
        let mut parts: Vec<String> = Vec::new();
        parts.push(request.method.clone());
        parts.push(request.path.clone());
        let ghost p0 = seq![request.method@, request.path@];
        assert(views(parts@) =~= p0);
        if self.include_query && request.query_params.entries.len() > 0 {
            parts.push(query_string(&request.query_params));
        }
        let ghost p1 = views(parts@);
        assert(p1 =~= p0 + (if self.include_query && request.query_params.entries@.len() > 0 {
            seq![query_text(sort_by_key(pair_views(request.query_params.entries@)))]
        } else {
            Seq::<Seq<char>>::empty()
        }));
        let mut i: usize = 0;
        assert(self.include_headers@.subrange(0, 0) =~= Seq::<String>::empty());
        assert(p1 =~= p1 + header_parts(self.include_headers@.subrange(0, 0), *request));
        while i < self.include_headers.len()
            invariant
                request.wf(),
                i <= self.include_headers@.len(),
                views(parts@) == p1 + header_parts(self.include_headers@.subrange(0, i as int), *request),
            p1 == p0 + (if self.include_query && request.query_params.entries@.len() > 0 {
                seq![query_text(sort_by_key(pair_views(request.query_params.entries@)))]
            } else {
                Seq::<Seq<char>>::empty()
            }),
            p0 == seq![request.method@, request.path@],
            decreases self.include_headers.len() - i,
        {
            let name = self.include_headers[i].as_str();
            assert(self.include_headers@.subrange(0, i as int + 1).drop_last() =~= self.include_headers@.subrange(0, i as int));
            assert(self.include_headers@.subrange(0, i as int + 1).last() == self.include_headers@[i as int]);
            match request.header_value(name) {
                Some(v) => {
                    let mut p = owned(name);
                    p.append(":");
                    p.append(v);
                    let ghost before = views(parts@);
                    parts.push(p);
                    proof {
                        let names = self.include_headers@.subrange(0, i as int + 1);
                        assert(names.last()@ == name@);
                        assert(request.header(names.last()@) == Some(v@));
                        assert(header_parts(names, *request) == header_parts(names.drop_last(), *request).push(names.last()@ + ":"@ + v@));
                        assert(views(parts@) =~= before.push(p@));
                    }
                    assert(views(parts@) =~= p1 + header_parts(self.include_headers@.subrange(0, i as int + 1), *request));
                },
                None => {},
            }
            i = i + 1;
        }
        assert(self.include_headers@.subrange(0, self.include_headers@.len() as int) =~= self.include_headers@);
        let ghost p2 = views(parts@);
        if self.include_user {
            match user {
                Some(u) => {
                    let mut p = String::from_str("user:");
                    p.append(u);
                    parts.push(p);
                },
                None => {},
            }
        }
        assert(views(parts@) =~= self.spec_parts(*request, match user { Some(u) => Some(u@), None => None }));
        join_strings(&parts, "|")
    }

    /// The default builder (that of `new`).
    pub fn default() -> (res: Self)
        ensures
            res.include_query,
            res.include_headers@.len() == 0,
            !res.include_user,
    {
        Self::new()
    }
}

/// The standard cache key of a request: method, path, and the sorted query.
pub fn create_cache_key(request: &Request) -> (res: String)
    requires
        request.wf(),
    ensures
        res@ == join(seq![request.method@, request.path@]
            + (if request.query_params.entries@.len() > 0 {
                seq![query_text(sort_by_key(pair_views(request.query_params.entries@)))]
            } else {
                Seq::empty()
            }), "|"@),
{
    let b = DefaultCacheKeyBuilder::new();
    let k = b.build_key(request, None);
    proof {
        assert(header_parts(b.include_headers@, *request) =~= Seq::<Seq<char>>::empty());
        assert(b.spec_parts(*request, None) =~= seq![request.method@, request.path@]
            + (if request.query_params.entries@.len() > 0 {
                seq![query_text(sort_by_key(pair_views(request.query_params.entries@)))]
            } else {
                Seq::empty()
            }));
    }
    k
}

// ============================================================================
// Cached responses and the store
// ============================================================================

/// A cached response with its metadata.
pub struct CachedResponse {
    /// The cached response body
    pub body: Vec<u8>,
    /// Response status code
    pub status: u16,
    /// Response headers
    pub headers: StrMap<String>,
    /// When this entry was cached (Unix seconds)
    pub cached_at: u64,
    /// Time-to-live in seconds
    pub ttl: u64,
    /// ETag for conditional requests
    pub etag: Option<String>,
    /// Last modified timestamp
    pub last_modified: Option<String>,
    /// Cache tags for invalidation
    pub tags: Vec<String>,
}

impl CachedResponse {
    /// The entry has expired at `now`: its time-to-live has run out.
    pub open spec fn expired_at(&self, now: u64) -> bool {
        now as int >= self.cached_at as int + self.ttl as int
    }

    /// Whether the entry has expired at `now`.
    pub fn is_expired_at(&self, now: u64) -> (res: bool)
        requires
            self.cached_at + self.ttl <= u64::MAX,
        ensures
            res == self.expired_at(now),
    {
        now >= self.cached_at + self.ttl
    }

    /// Whether the entry has expired now.
    pub fn is_expired(&self) -> (res: bool)
        requires
            self.cached_at + self.ttl <= u64::MAX,
        ensures
            exists|now: u64| res == self.expired_at(now),
    {
        let now = crate::time::unix_now_secs();
        self.is_expired_at(now)
    }

    /// The seconds left before the entry expires at `now`.
    pub fn remaining_ttl_at(&self, now: u64) -> (res: u64)
        requires
            self.cached_at + self.ttl <= u64::MAX,
        ensures
            res == if self.expired_at(now) { 0 } else { self.cached_at + self.ttl - now },
    {
        if self.is_expired_at(now) {
            0
        } else {
            self.cached_at + self.ttl - now
        }
    }

    /// The seconds left before the entry expires.
    pub fn remaining_ttl(&self) -> (res: u64)
        requires
            self.cached_at + self.ttl <= u64::MAX,
        ensures
            exists|now: u64| res == if self.expired_at(now) { 0 } else { self.cached_at + self.ttl - now },
    {
        let now = crate::time::unix_now_secs();
        self.remaining_ttl_at(now)
    }
}

/// Cache error types.
#[derive(Debug)]
pub enum CacheError {
    BackendError(String),
    SerializationError(String),
    ConnectionError(String),
    TimeoutError(String),
}

impl CacheError {
    /// The error message.
    pub fn to_string(&self) -> (res: String)
        ensures
            res@ == match self {
                CacheError::BackendError(m) => "Cache backend error: "@ + m@,
                CacheError::SerializationError(m) => "Serialization error: "@ + m@,
                CacheError::ConnectionError(m) => "Connection error: "@ + m@,
                CacheError::TimeoutError(m) => "Timeout error: "@ + m@,
            },
    {
        let (mut s, m) = match self {
            CacheError::BackendError(m) => (String::from_str("Cache backend error: "), m),
            CacheError::SerializationError(m) => (String::from_str("Serialization error: "), m),
            CacheError::ConnectionError(m) => (String::from_str("Connection error: "), m),
            CacheError::TimeoutError(m) => (String::from_str("Timeout error: "), m),
        };
        s.append(m.as_str());
        s
    }
}

/// A backend that keeps cached responses.
pub trait CacheStore {
    /// What the backend keeps true between calls.
    spec fn inv(&self) -> bool;

    /// The entry under `key`, if any and not expired at `now`.
    fn get(&mut self, key: &str, now: u64) -> (res: Result<Option<&CachedResponse>, CacheError>)
        requires
            old(self).inv(),
        ensures
            final(self).inv();

    /// Store an entry under `key`.
    fn set(&mut self, key: &str, response: CachedResponse, now: u64) -> (res: Result<(), CacheError>)
        requires
            old(self).inv(),
            response.cached_at + response.ttl <= u64::MAX,
            response.headers.wf(),
        ensures
            final(self).inv();

    /// Remove the entry under `key`.
    fn delete(&mut self, key: &str) -> (res: Result<(), CacheError>)
        requires
            old(self).inv(),
        ensures
            final(self).inv();

    /// Remove every entry.
    fn clear(&mut self) -> (res: Result<(), CacheError>)
        requires
            old(self).inv(),
        ensures
            final(self).inv();

    /// Remove every entry carrying one of `tags`.
    fn invalidate_tags(&mut self, tags: &Vec<String>) -> (res: Result<(), CacheError>)
        requires
            old(self).inv(),
        ensures
            final(self).inv();
}

/// Every entry's expiry fits in the clock's range, and its headers are a map.
pub open spec fn expiries_fit(m: Map<Seq<char>, CachedResponse>) -> bool {
    forall|k: Seq<char>| #[trigger] m.dom().contains(k) ==> m[k].cached_at + m[k].ttl <= u64::MAX && m[k].headers.wf()
}

/// Whether any of an entry's tags is among `tags`.
pub open spec fn tagged(entry: CachedResponse, tags: Seq<String>) -> bool {
    exists|i: int, j: int| 0 <= i < entry.tags@.len() && 0 <= j < tags.len() && #[trigger] entry.tags@[i]@ == #[trigger] tags[j]@
}

/// `m` without the entries for which `drop` holds.
pub open spec fn without(m: Map<Seq<char>, CachedResponse>, drop: spec_fn(CachedResponse) -> bool) -> Map<Seq<char>, CachedResponse> {
    m.restrict(m.dom().filter(|k: Seq<char>| !drop(m[k])))
}

/// An in-memory cache store holding at most `max_size` entries after a store.
pub struct InMemoryCacheStore {
    pub store: StrMap<CachedResponse>,
    pub max_size: usize,
}

impl InMemoryCacheStore {
    pub open spec fn wf(&self) -> bool {
        &&& self.store.wf()
        &&& expiries_fit(self.store.to_map())
    }

    /// The entries by key.
    pub open spec fn entries(&self) -> Map<Seq<char>, CachedResponse> {
        self.store.to_map()
    }

    /// An empty store for up to 10000 entries.
    pub fn new() -> (res: Self)
        ensures
            res.wf(),
            res.entries() == Map::<Seq<char>, CachedResponse>::empty(),
            res.max_size == 10000,
    {
        InMemoryCacheStore { store: StrMap::new(), max_size: 10000 }
    }

    /// Set the size bound.
    pub fn with_max_size(self, max_size: usize) -> (res: Self)
        ensures
            res.store == self.store,
            res.max_size == max_size,
    {
        let mut c = self;
        c.max_size = max_size;
        c
    }

    /// The default store (that of `new`).
    pub fn default() -> (res: Self)
        ensures
            res.wf(),
            res.entries() == Map::<Seq<char>, CachedResponse>::empty(),
            res.max_size == 10000,
    {
        Self::new()
    }

    /// The entry under `key` unless it has expired at `now`; an expired entry
    /// is dropped.
    pub fn lookup(&mut self, key: &str, now: u64) -> (res: Option<&CachedResponse>)
        requires
            old(self).wf(),
        ensures
            final(self).wf(),
            final(self).max_size == old(self).max_size,
            !old(self).entries().dom().contains(key@) ==> res is None && final(self).entries() == old(self).entries(),
            old(self).entries().dom().contains(key@) && old(self).entries()[key@].expired_at(now)
                ==> res is None && final(self).entries() == old(self).entries().remove(key@),
            old(self).entries().dom().contains(key@) && !old(self).entries()[key@].expired_at(now)
                ==> (res matches Some(r) && *r == old(self).entries()[key@]) && final(self).entries() == old(self).entries(),
    {
        match self.store.index_of(key) {
            None => {
                assert(!(exists|i: int| 0 <= i < self.store.entries@.len() && self.store.entries@[i].0@ == key@));
                None
            },
            Some(i) => {
                proof {
                    crate::strmap::lemma_map_of_at(self.store.entries@, i as int);
                }
                if self.store.entries[i].1.is_expired_at(now) {
                    self.store.remove_at(i);
                    None
                } else {
                    Some(&self.store.entries[i].1)
                }
            },
        }
    }

    /// Keep only the entries for which `keep_entry` says so.
    fn retain_where(&mut self, now: u64, tags: &Vec<String>, by_tags: bool)
        requires
            old(self).wf(),
        ensures
            final(self).wf(),
            final(self).max_size == old(self).max_size,
            by_tags ==> final(self).entries() == without(old(self).entries(), |e: CachedResponse| tagged(e, tags@)),
            !by_tags ==> final(self).entries() == without(old(self).entries(), |e: CachedResponse| e.expired_at(now)),
    {
        let ghost m0 = self.entries();
        let ghost dropf: spec_fn(CachedResponse) -> bool = if by_tags {
            |e: CachedResponse| tagged(e, tags@)
        } else {
            |e: CachedResponse| e.expired_at(now)
        };
        let mut kept: StrMap<CachedResponse> = StrMap::new();
        let ghost s0 = self.store.entries@;
        assert(self.store.entries@ =~= s0.subrange(0, s0.len() as int));
        while self.store.entries.len() > 0
            invariant
                kept.wf(),
                self.max_size == old(self).max_size,
                crate::strmap::unique_keys(s0),
                m0 == crate::strmap::map_of(s0),
                expiries_fit(m0),
                self.store.entries@.len() <= s0.len(),
                self.store.entries@ == s0.subrange(0, self.store.entries@.len() as int),
                forall|k: Seq<char>| #[trigger] kept.to_map().dom().contains(k)
                    <==> (exists|j: int| self.store.entries@.len() <= j < s0.len() && s0[j].0@ == k && !dropf(s0[j].1)),
                forall|j: int| self.store.entries@.len() <= j < s0.len() && !dropf(s0[j].1)
                    ==> #[trigger] kept.to_map()[s0[j].0@] == s0[j].1,
                dropf == (if by_tags { |e: CachedResponse| tagged(e, tags@) } else { |e: CachedResponse| e.expired_at(now) }),
            decreases self.store.entries.len(),
        {
            let ghost n = self.store.entries@.len() - 1;
            let e = self.store.entries.pop().unwrap();
            proof {
                assert(e == s0[n]);
                crate::strmap::lemma_map_of_at(s0, n);
            }
            let drop = if by_tags { has_tag(&e.1, tags) } else { e.1.is_expired_at(now) };
            if !drop {
                kept.insert(e.0, e.1);
                proof {
                    assert forall|j: int| n < j < s0.len() && !dropf(s0[j].1)
                        implies #[trigger] kept.to_map()[s0[j].0@] == s0[j].1 by {
                        assert(s0[n].0@ != s0[j].0@);
                    }
                }
            }
            assert(self.store.entries@ =~= s0.subrange(0, n));
        }
        proof {
            let target = without(m0, dropf);
            assert forall|k: Seq<char>| #[trigger] kept.to_map().dom().contains(k) <==> target.dom().contains(k) by {
                if m0.dom().contains(k) {
                    let j = choose|j: int| 0 <= j < s0.len() && s0[j].0@ == k;
                    crate::strmap::lemma_map_of_at(s0, j);
                }
                if kept.to_map().dom().contains(k) {
                    let j = choose|j: int| 0 <= j < s0.len() && s0[j].0@ == k && !dropf(s0[j].1);
                    crate::strmap::lemma_map_of_at(s0, j);
                }
            }
            assert forall|k: Seq<char>| #[trigger] kept.to_map().dom().contains(k) implies kept.to_map()[k] == target[k] by {
                let j = choose|j: int| 0 <= j < s0.len() && s0[j].0@ == k && !dropf(s0[j].1);
                crate::strmap::lemma_map_of_at(s0, j);
            }
            assert(kept.to_map() =~= target);
        }
        self.store = kept;
    }

}

/// Whether an entry carries one of `tags`.
fn has_tag(entry: &CachedResponse, tags: &Vec<String>) -> (res: bool)
        ensures
            res == tagged(*entry, tags@),
    {
        let mut i: usize = 0;
        while i < entry.tags.len()
            invariant
                i <= entry.tags@.len(),
                forall|a: int, b: int| 0 <= a < i && 0 <= b < tags@.len() ==> #[trigger] entry.tags@[a]@ != #[trigger] tags@[b]@,
            decreases entry.tags.len() - i,
        {
            let mut j: usize = 0;
            while j < tags.len()
                invariant
                    i < entry.tags@.len(),
                    j <= tags@.len(),
                    forall|a: int, b: int| 0 <= a < i && 0 <= b < tags@.len() ==> #[trigger] entry.tags@[a]@ != #[trigger] tags@[b]@,
                    forall|b: int| 0 <= b < j ==> entry.tags@[i as int]@ != #[trigger] tags@[b]@,
                decreases tags.len() - j,
            {
                if str_eq(entry.tags[i].as_str(), tags[j].as_str()) {
                    return true;
                }
                j = j + 1;
            }
            i = i + 1;
        }
        false
    }

impl InMemoryCacheStore {
    /// Remove the entries carrying one of `tags`.
    pub fn drop_tagged(&mut self, tags: &Vec<String>)
        requires
            old(self).wf(),
        ensures
            final(self).wf(),
            final(self).max_size == old(self).max_size,
            final(self).entries() == without(old(self).entries(), |e: CachedResponse| tagged(e, tags@)),
    {
        self.retain_where(0, tags, true);
    }
}

/// `a` holds some of the entries of `b`, unchanged.
pub open spec fn sub_map(a: Map<Seq<char>, CachedResponse>, b: Map<Seq<char>, CachedResponse>) -> bool {
    forall|k: Seq<char>| #[trigger] a.dom().contains(k) ==> b.dom().contains(k) && a[k] == b[k]
}

/// Every entry of `b` missing from `a` was cached no later than every entry of `a`.
pub open spec fn dropped_oldest(a: Map<Seq<char>, CachedResponse>, b: Map<Seq<char>, CachedResponse>) -> bool {
    forall|k: Seq<char>, k2: Seq<char>| b.dom().contains(k) && !a.dom().contains(k) && #[trigger] a.dom().contains(k2)
        ==> #[trigger] b[k].cached_at <= a[k2].cached_at
}

impl InMemoryCacheStore {
    /// Index of an entry cached no later than any other.
    fn oldest(&self) -> (res: usize)
        requires
            self.store.entries@.len() > 0,
        ensures
            res < self.store.entries@.len(),
            forall|j: int| 0 <= j < self.store.entries@.len()
                ==> self.store.entries@[res as int].1.cached_at <= #[trigger] self.store.entries@[j].1.cached_at,
    {
        let mut best: usize = 0;
        let mut i: usize = 1;
        while i < self.store.entries.len()
            invariant
                self.store.entries@.len() > 0,
                best < self.store.entries@.len(),
                1 <= i <= self.store.entries@.len(),
                forall|j: int| 0 <= j < i ==> self.store.entries@[best as int].1.cached_at <= #[trigger] self.store.entries@[j].1.cached_at,
            decreases self.store.entries.len() - i,
        {
            if self.store.entries[i].1.cached_at < self.store.entries[best].1.cached_at {
                best = i;
            }
            i = i + 1;
        }
        best
    }

    /// Store `response` under `key`.  When the store then holds more than
    /// `max_size` entries, the entries expired at `now` go, and then the oldest,
    /// until the bound is met.
    pub fn put(&mut self, key: &str, response: CachedResponse, now: u64)
        requires
            old(self).wf(),
            response.cached_at + response.ttl <= u64::MAX,
            response.headers.wf(),
        ensures
            final(self).wf(),
            final(self).max_size == old(self).max_size,
            ({
                let m1 = old(self).entries().insert(key@, response);
                let m2 = without(m1, |e: CachedResponse| e.expired_at(now));
                &&& m1.dom().len() <= old(self).max_size ==> final(self).entries() == m1
                &&& m1.dom().len() > old(self).max_size ==> {
                    &&& sub_map(final(self).entries(), m2)
                    &&& final(self).entries().dom().len() <= old(self).max_size
                    &&& dropped_oldest(final(self).entries(), m2)
                    &&& m2.dom().len() <= old(self).max_size ==> final(self).entries() == m2
                }
            }),
    {
        let ghost m1 = self.entries().insert(key@, response);
        self.store.insert(owned(key), response);
        proof {
            self.store.lemma_len();
        }
        if self.store.len() <= self.max_size {
            return;
        }
        self.cleanup_expired(now);
    }

    /// Drop the entries expired at `now`; then, while the store holds more than
    /// `max_size` entries, drop the oldest.
    pub fn cleanup_expired(&mut self, now: u64)
        requires
            old(self).wf(),
        ensures
            final(self).wf(),
            final(self).max_size == old(self).max_size,
            ({
                let m2 = without(old(self).entries(), |e: CachedResponse| e.expired_at(now));
                &&& sub_map(final(self).entries(), m2)
                &&& final(self).entries().dom().len() <= old(self).max_size
                &&& dropped_oldest(final(self).entries(), m2)
                &&& m2.dom().len() <= old(self).max_size ==> final(self).entries() == m2
            }),
    {
        let empty: Vec<String> = Vec::new();
        self.retain_where(now, &empty, false);
        let ghost m2 = self.entries();
        proof {
            self.store.lemma_len();
            assert(sub_map(m2, m2));
            assert(dropped_oldest(m2, m2));
        }
        while self.store.len() > self.max_size
            invariant
                self.wf(),
                self.max_size == old(self).max_size,
                sub_map(self.entries(), m2),
                dropped_oldest(self.entries(), m2),
                self.entries().dom().len() == self.store.entries@.len(),
                m2.dom().len() <= old(self).max_size ==> self.entries() == m2,
            decreases self.store.entries.len(),
        {
            let i = self.oldest();
            let ghost before = self.entries();
            let ghost s = self.store.entries@;
            proof {
                crate::strmap::lemma_map_of_at(s, i as int);
            }
            self.store.remove_at(i);
            proof {
                self.store.lemma_len();
                let gone = s[i as int].0@;
                assert forall|k: Seq<char>, k2: Seq<char>| m2.dom().contains(k) && !self.entries().dom().contains(k)
                    && #[trigger] self.entries().dom().contains(k2) implies #[trigger] m2[k].cached_at <= self.entries()[k2].cached_at by {
                    assert(before.dom().contains(k2));
                    if k == gone {
                        let j = choose|j: int| 0 <= j < s.len() && s[j].0@ == k2;
                        crate::strmap::lemma_map_of_at(s, j);
                        assert(s[i as int].1.cached_at <= s[j].1.cached_at);
                    } else {
                        assert(!before.dom().contains(k));
                    }
                }
                if m2.dom().len() <= old(self).max_size {
                    assert(before == m2);
                    assert(false);
                }
            }
        }
    }

    /// Remove the entry under `key`.
    pub fn delete(&mut self, key: &str)
        requires
            old(self).wf(),
        ensures
            final(self).wf(),
            final(self).max_size == old(self).max_size,
            final(self).entries() == old(self).entries().remove(key@),
    {
        self.store.remove(key);
    }

    /// Remove every entry.
    pub fn clear_all(&mut self)
        ensures
            final(self).wf(),
            final(self).max_size == old(self).max_size,
            final(self).entries() == Map::<Seq<char>, CachedResponse>::empty(),
    {
        self.store.clear();
    }
}

impl CacheStore for InMemoryCacheStore {
    open spec fn inv(&self) -> bool {
        self.wf()
    }

    fn get(&mut self, key: &str, now: u64) -> (res: Result<Option<&CachedResponse>, CacheError>) {
        Ok(self.lookup(key, now))
    }

    fn set(&mut self, key: &str, response: CachedResponse, now: u64) -> (res: Result<(), CacheError>) {
        self.put(key, response, now);
        Ok(())
    }

    fn delete(&mut self, key: &str) -> (res: Result<(), CacheError>) {
        InMemoryCacheStore::delete(self, key);
        Ok(())
    }

    fn clear(&mut self) -> (res: Result<(), CacheError>) {
        self.clear_all();
        Ok(())
    }

    fn invalidate_tags(&mut self, tags: &Vec<String>) -> (res: Result<(), CacheError>) {
        self.drop_tagged(tags);
        Ok(())
    }
}

// ============================================================================
// Middleware
// ============================================================================

/// One item fed to the hasher.
pub enum HashItem {
    Status(u16),
    Bytes(Vec<u8>),
    Text(String),
}

/// What an ETag hashes of a response, in order: its status, its body, then
/// each header's name and value.
pub open spec fn etag_items_spec(status: u16, body: Seq<u8>, headers: Seq<(String, String)>) -> Seq<HashItemView> {
    seq![HashItemView::Status(status), HashItemView::Bytes(body)]
        + Seq::new((2 * headers.len()) as nat, |i: int| if i % 2 == 0 {
            HashItemView::Text(headers[i / 2].0@)
        } else {
            HashItemView::Text(headers[i / 2].1@)
        })
}

/// A hashed item, as bytes and characters.
pub enum HashItemView {
    Status(u16),
    Bytes(Seq<u8>),
    Text(Seq<char>),
}

/// The view of a hashed item.
pub open spec fn hash_item_view(h: HashItem) -> HashItemView {
    match h {
        HashItem::Status(s) => HashItemView::Status(s),
        HashItem::Bytes(b) => HashItemView::Bytes(b@),
        HashItem::Text(t) => HashItemView::Text(t@),
    }
}

/// The items an ETag hashes of a response.
fn etag_items(response: &Response) -> (res: Vec<HashItem>)
    ensures
        res@.map_values(|h: HashItem| hash_item_view(h)) == etag_items_spec(response.status, response.body@, response.headers.seq()),
{
    let mut items: Vec<HashItem> = Vec::new();
    items.push(HashItem::Status(response.status));
    items.push(HashItem::Bytes(response.body.clone()));
    let ghost hs = response.headers.seq();
    let mut i: usize = 0;
    while i < response.headers.entries.len()
        invariant
            hs == response.headers.seq(),
            i <= hs.len(),
            items@.map_values(|h: HashItem| hash_item_view(h)) == etag_items_spec(response.status, response.body@, hs.subrange(0, i as int)),
        decreases response.headers.entries.len() - i,
    {
        let ghost before = items@;
        items.push(HashItem::Text(response.headers.entries[i].0.clone()));
        items.push(HashItem::Text(response.headers.entries[i].1.clone()));
        proof {
            let lhs = items@.map_values(|h: HashItem| hash_item_view(h));
            let olds = etag_items_spec(response.status, response.body@, hs.subrange(0, i as int));
            let news = etag_items_spec(response.status, response.body@, hs.subrange(0, i as int + 1));
            assert(before.map_values(|h: HashItem| hash_item_view(h)) == olds);
            assert(items@.len() == before.len() + 2);
            assert(olds.len() == 2 + 2 * i);
            assert(hs.subrange(0, i as int + 1).len() == i + 1);
            assert(news.len() == 2 + 2 * (i + 1));
            assert(lhs.len() == news.len());
            assert forall|k: int| 0 <= k < lhs.len() implies lhs[k] == news[k] by {
                if k < olds.len() {
                    assert(lhs[k] == hash_item_view(before[k]));
                    assert(before.map_values(|h: HashItem| hash_item_view(h))[k] == hash_item_view(before[k]));
                    if k >= 2 {
                        assert(hs.subrange(0, i as int + 1)[(k - 2) / 2] == hs.subrange(0, i as int)[(k - 2) / 2]);
                    }
                } else {
                    assert((k - 2) / 2 == i as int);
                }
            }
            assert(lhs =~= news);
        }
        i = i + 1;
    }
    assert(hs.subrange(0, hs.len() as int) =~= hs);
    items
}

/// A `std::collections::hash_map::DefaultHasher` fed each item in turn (the
/// status as `u16`, bytes as a slice, text as a string), then `finish`.
/// Nothing is promised of the value: the algorithm is left open by `std`.
#[verifier::external_body]
fn hash_items(items: &Vec<HashItem>) -> u64 {
    let mut hasher = std::collections::hash_map::DefaultHasher::new();
    for item in items.iter() {
        match item {
            HashItem::Status(s) => std::hash::Hash::hash(s, &mut hasher),
            HashItem::Bytes(b) => std::hash::Hash::hash(b.as_slice(), &mut hasher),
            HashItem::Text(t) => std::hash::Hash::hash(t, &mut hasher),
        }
    }
    std::hash::Hasher::finish(&hasher)
}

/// The current time as an HTTP date, `chrono::Utc::now().format("%a, %d %b %Y
/// %H:%M:%S GMT")`.  Nothing is promised of the text: it is the clock.
#[verifier::external_body]
fn http_date_now() -> String {
    chrono::Utc::now().format("%a, %d %b %Y %H:%M:%S GMT").to_string()
}

/// Cache middleware configuration.
pub struct CacheConfig {
    /// Default TTL in seconds
    pub default_ttl: u64,
    /// Cache only these HTTP methods
    pub methods: Vec<String>,
    /// Cache only responses with these status codes
    pub status_codes: Vec<u16>,
    /// Exclude these paths from caching
    pub exclude_paths: Vec<String>,
    /// Include these paths (if empty, cache all except excluded)
    pub include_paths: Vec<String>,
    /// Include query parameters in cache key
    pub include_query: bool,
    /// Include headers in cache key
    pub include_headers: Vec<String>,
    /// Include user context in cache key
    pub include_user: bool,
    /// Enable ETag generation
    pub enable_etag: bool,
    /// Enable Last-Modified header
    pub enable_last_modified: bool,
    /// Enable conditional requests
    pub enable_conditional: bool,
    /// Vary headers to include in cache key
    pub vary_headers: Vec<String>,
}

/// Whether some entry of `v` is `s`.
pub open spec fn listed(v: Seq<String>, s: Seq<char>) -> bool {
    exists|i: int| 0 <= i < v.len() && #[trigger] v[i]@ == s
}

impl CacheConfig {
    /// The defaults: five minutes, GET and HEAD, the 2xx codes, `/health` and
    /// `/metrics` excluded, query in the key, ETag, Last-Modified and
    /// conditional requests on.
    pub fn new() -> (res: Self)
        ensures
            res.default_ttl == 300,
            views(res.methods@) == seq!["GET"@, "HEAD"@],
            res.status_codes@ == seq![200u16, 201, 202, 203, 204, 205, 206, 207, 208, 226],
            views(res.exclude_paths@) == seq!["/health"@, "/metrics"@],
            res.include_paths@.len() == 0,
            res.include_query,
            res.include_headers@.len() == 0,
            !res.include_user,
            res.enable_etag,
            res.enable_last_modified,
            res.enable_conditional,
            res.vary_headers@.len() == 0,
    {
        let methods = vec![String::from_str("GET"), String::from_str("HEAD")];
        let exclude_paths = vec![String::from_str("/health"), String::from_str("/metrics")];
        let status_codes = vec![200u16, 201, 202, 203, 204, 205, 206, 207, 208, 226];
        assert(views(methods@) =~= seq!["GET"@, "HEAD"@]);
        assert(views(exclude_paths@) =~= seq!["/health"@, "/metrics"@]);
        assert(status_codes@ =~= seq![200u16, 201, 202, 203, 204, 205, 206, 207, 208, 226]);
        CacheConfig {
            default_ttl: 300,
            methods,
            status_codes,
            exclude_paths,
            include_paths: Vec::new(),
            include_query: true,
            include_headers: Vec::new(),
            include_user: false,
            enable_etag: true,
            enable_last_modified: true,
            enable_conditional: true,
            vary_headers: Vec::new(),
        }
    }

    /// Set the default TTL.
    pub fn ttl(self, ttl: u64) -> (res: Self)
        ensures
            res == (CacheConfig { default_ttl: ttl, ..self }),
    {
        let mut c = self;
        c.default_ttl = ttl;
        c
    }

    /// Cache exactly these methods.
    pub fn methods(self, methods: Vec<&str>) -> (res: Self)
        ensures
            views(res.methods@) == crate::text::ref_views(methods@),
            res == (CacheConfig { methods: res.methods, ..self }),
    {
        let mut c = self;
        c.methods = crate::security::to_strings(&methods);
        c
    }

    /// Exclude a path.
    pub fn exclude_path(self, path: &str) -> (res: Self)
        ensures
            views(res.exclude_paths@) == views(self.exclude_paths@).push(path@),
            res == (CacheConfig { exclude_paths: res.exclude_paths, ..self }),
    {
        let mut c = self;
        c.exclude_paths.push(owned(path));
        assert(views(c.exclude_paths@) =~= views(self.exclude_paths@).push(path@));
        c
    }

    /// Include a path (once any is included, only those are cached).
    pub fn include_path(self, path: &str) -> (res: Self)
        ensures
            views(res.include_paths@) == views(self.include_paths@).push(path@),
            res == (CacheConfig { include_paths: res.include_paths, ..self }),
    {
        let mut c = self;
        c.include_paths.push(owned(path));
        assert(views(c.include_paths@) =~= views(self.include_paths@).push(path@));
        c
    }

    /// Include the query in the key or not.
    pub fn include_query(self, include_query: bool) -> (res: Self)
        ensures
            res == (CacheConfig { include_query, ..self }),
    {
        let mut c = self;
        c.include_query = include_query;
        c
    }

    /// Include a header in the key.
    pub fn include_header(self, header: &str) -> (res: Self)
        ensures
            views(res.include_headers@) == views(self.include_headers@).push(header@),
            res == (CacheConfig { include_headers: res.include_headers, ..self }),
    {
        let mut c = self;
        c.include_headers.push(owned(header));
        assert(views(c.include_headers@) =~= views(self.include_headers@).push(header@));
        c
    }

    /// Include the user in the key or not.
    pub fn include_user(self, include_user: bool) -> (res: Self)
        ensures
            res == (CacheConfig { include_user, ..self }),
    {
        let mut c = self;
        c.include_user = include_user;
        c
    }

    /// Generate ETags or not.
    pub fn enable_etag(self, enable: bool) -> (res: Self)
        ensures
            res == (CacheConfig { enable_etag: enable, ..self }),
    {
        let mut c = self;
        c.enable_etag = enable;
        c
    }

    /// Answer conditional requests or not.
    pub fn enable_conditional(self, enable: bool) -> (res: Self)
        ensures
            res == (CacheConfig { enable_conditional: enable, ..self }),
    {
        let mut c = self;
        c.enable_conditional = enable;
        c
    }

    /// The default configuration (that of `new`).
    pub fn default() -> (res: Self)
        ensures
            res.default_ttl == 300,
            res.include_query,
    {
        Self::new()
    }
}

/// The caching middleware, with its store and key builder.
pub struct CacheMiddleware {
    pub config: CacheConfig,
    pub store: InMemoryCacheStore,
    pub key_builder: DefaultCacheKeyBuilder,
}

impl CacheMiddleware {
    pub open spec fn wf(&self) -> bool {
        self.store.wf()
    }

    /// Whether a request may be answered from or stored in the cache: a listed
    /// method, a path not excluded, and an included path when any are listed.
    pub open spec fn spec_cacheable(&self, r: &Request) -> bool {
        &&& listed(self.config.methods@, r.method@)
        &&& !(exists|i: int| 0 <= i < self.config.exclude_paths@.len() && skip_match(r.path@, #[trigger] self.config.exclude_paths@[i]@))
        &&& (self.config.include_paths@.len() > 0 ==>
            exists|i: int| 0 <= i < self.config.include_paths@.len() && skip_match(r.path@, #[trigger] self.config.include_paths@[i]@))
    }

    /// The default configuration, an empty store and the default key builder.
    pub fn new() -> (res: Self)
        ensures
            res.wf(),
            res.config.default_ttl == 300,
    {
        CacheMiddleware { config: CacheConfig::new(), store: InMemoryCacheStore::new(), key_builder: DefaultCacheKeyBuilder::new() }
    }

    /// Another configuration, with an empty store; the key builder follows the
    /// configuration's query, header and user choices.
    pub fn with_config(config: CacheConfig) -> (res: Self)
        ensures
            res.wf(),
            res.config == config,
            res.key_builder.include_query == config.include_query,
            res.key_builder.include_user == config.include_user,
    {
        let mut key_builder = DefaultCacheKeyBuilder::new();
        key_builder.include_query = config.include_query;
        key_builder.include_user = config.include_user;
        let mut i: usize = 0;
        while i < config.include_headers.len()
            invariant
                i <= config.include_headers@.len(),
                key_builder.include_query == config.include_query,
                key_builder.include_user == config.include_user,
            decreases config.include_headers.len() - i,
        {
            key_builder.include_headers.push(config.include_headers[i].clone());
            i = i + 1;
        }
        CacheMiddleware { config, store: InMemoryCacheStore::new(), key_builder }
    }

    /// Whether the request may be cached.
    pub fn should_cache_request(&self, request: &Request) -> (res: bool)
        ensures
            res == self.spec_cacheable(request),
    {
        let mut listed_method = false;
        let mut i: usize = 0;
        while i < self.config.methods.len()
            invariant
                i <= self.config.methods@.len(),
                listed_method == exists|j: int| 0 <= j < i && #[trigger] self.config.methods@[j]@ == request.method@,
            decreases self.config.methods.len() - i,
        {
            if str_eq(self.config.methods[i].as_str(), request.method.as_str()) {
                listed_method = true;
            }
            i = i + 1;
        }
        if !listed_method {
            return false;
        }
        if matches_any(request.path.as_str(), &self.config.exclude_paths) {
            return false;
        }
        if self.config.include_paths.len() > 0 {
            return matches_any(request.path.as_str(), &self.config.include_paths);
        }
        true
    }

    /// Whether a response of this status is stored.
    pub fn should_cache_response(&self, response: &Response) -> (res: bool)
        ensures
            res == self.config.status_codes@.contains(response.status),
    {
        let mut i: usize = 0;
        while i < self.config.status_codes.len()
            invariant
                i <= self.config.status_codes@.len(),
                forall|j: int| 0 <= j < i ==> self.config.status_codes@[j] != response.status,
            decreases self.config.status_codes.len() - i,
        {
            if self.config.status_codes[i] == response.status {
                return true;
            }
            i = i + 1;
        }
        false
    }

    /// The ETag of a response: a hash of its status, body and headers, in hex,
    /// quoted.
    pub fn generate_etag(&self, response: &Response) -> (res: String)
        ensures
            exists|h: u64| res@ == "\""@ + crate::crypto::hex_num(h as nat) + "\""@,
    {
        let items = etag_items(response);
        let h = hash_items(&items);
        let mut s = String::from_str("\"");
        crate::crypto::append_hex_num(&mut s, h);
        s.append("\"");
        s
    }

    /// The answer to a conditional request for a cached entry: 304 when
    /// `If-None-Match` equals its ETag (or is `*`), or when `If-Modified-Since`
    /// equals its Last-Modified.
    pub fn check_conditional_request(&self, request: &Request, cached: &CachedResponse) -> (res: Option<Response>)
        requires
            request.wf(),
        ensures
            ({
                let inm = request.header("if-none-match"@);
                let ims = request.header("if-modified-since"@);
                if inm is Some && cached.etag is Some && (inm->0 == cached.etag->0@ || inm->0 == "*"@) {
                    res matches Some(r) && r.wf() && r.status == 304
                        && r.header_map() == match cached.last_modified {
                            Some(lm) => map!["ETag"@ => strip_ctl(cached.etag->0@), "Last-Modified"@ => strip_ctl(lm@)],
                            None => map!["ETag"@ => strip_ctl(cached.etag->0@)],
                        }
                } else if ims is Some && cached.last_modified is Some && ims->0 == cached.last_modified->0@ {
                    res matches Some(r) && r.wf() && r.status == 304
                        && r.header_map() == match cached.etag {
                            Some(e) => map!["ETag"@ => strip_ctl(e@), "Last-Modified"@ => strip_ctl(cached.last_modified->0@)],
                            None => map!["Last-Modified"@ => strip_ctl(cached.last_modified->0@)],
                        }
                } else {
                    res is None
                }
            }),
    {
        match (request.header_value("if-none-match"), &cached.etag) {
            (Some(inm), Some(etag)) => {
                if str_eq(inm, etag.as_str()) || str_eq(inm, "*") {
                    let mut r = Response::new(304);
                    r.set_header("ETag", etag.as_str());
                    match &cached.last_modified {
                        Some(lm) => {
                            r.set_header("Last-Modified", lm.as_str());
                            assert(r.header_map() =~= map!["ETag"@ => strip_ctl(etag@), "Last-Modified"@ => strip_ctl(lm@)]);
                        },
                        None => {
                            assert(r.header_map() =~= map!["ETag"@ => strip_ctl(etag@)]);
                        },
                    }
                    return Some(r);
                }
            },
            _ => {},
        }
        match (request.header_value("if-modified-since"), &cached.last_modified) {
            (Some(ims), Some(lm)) => {
                if str_eq(ims, lm.as_str()) {
                    let mut r = Response::new(304);
                    match &cached.etag {
                        Some(e) => {
                            r.set_header("ETag", e.as_str());
                            r.set_header("Last-Modified", lm.as_str());
                            assert(r.header_map() =~= map!["ETag"@ => strip_ctl(e@), "Last-Modified"@ => strip_ctl(lm@)]);
                        },
                        None => {
                            r.set_header("Last-Modified", lm.as_str());
                            assert(r.header_map() =~= map!["Last-Modified"@ => strip_ctl(lm@)]);
                        },
                    }
                    return Some(r);
                }
            },
            _ => {},
        }
        None
    }
}

/// A copy of a header map.
fn copy_headers(h: &StrMap<String>) -> (res: StrMap<String>)
    requires
        h.wf(),
    ensures
        res.wf(),
        pair_views(res.entries@) == pair_views(h.entries@),
        res.to_map().map_values(|v: String| v@) == h.to_map().map_values(|v: String| v@),
{
    let mut out: Vec<(String, String)> = Vec::new();
    let mut i: usize = 0;
    while i < h.entries.len()
        invariant
            i <= h.entries@.len(),
            out@.len() == i,
            forall|j: int| 0 <= j < i ==> #[trigger] out@[j].0@ == h.entries@[j].0@ && out@[j].1@ == h.entries@[j].1@,
        decreases h.entries.len() - i,
    {
        out.push((h.entries[i].0.clone(), h.entries[i].1.clone()));
        i = i + 1;
    }
    let res = StrMap { entries: out };
    proof {
        assert(pair_views(res.entries@) =~= pair_views(h.entries@));
        assert(crate::strmap::unique_keys(res.entries@)) by {
            assert forall|a: int, b: int| 0 <= a < b < res.entries@.len() implies res.entries@[a].0@ != res.entries@[b].0@ by {
                assert(h.entries@[a].0@ != h.entries@[b].0@);
            }
        }
        let m1 = res.to_map().map_values(|v: String| v@);
        let m2 = h.to_map().map_values(|v: String| v@);
        assert forall|k: Seq<char>| #[trigger] m1.dom().contains(k) <==> m2.dom().contains(k) by {
            if m1.dom().contains(k) {
                let j = choose|j: int| 0 <= j < res.entries@.len() && res.entries@[j].0@ == k;
                assert(h.entries@[j].0@ == k);
            }
            if m2.dom().contains(k) {
                let j = choose|j: int| 0 <= j < h.entries@.len() && h.entries@[j].0@ == k;
                assert(res.entries@[j].0@ == k);
            }
        }
        assert forall|k: Seq<char>| #[trigger] m1.dom().contains(k) implies m1[k] == m2[k] by {
            let j = choose|j: int| 0 <= j < res.entries@.len() && res.entries@[j].0@ == k;
            crate::strmap::lemma_map_of_at(res.entries@, j);
            crate::strmap::lemma_map_of_at(h.entries@, j);
        }
        assert(m1 =~= m2);
    }
    res
}

/// The trimmed comma-separated pieces of a tag list.
pub open spec fn tag_list(s: Seq<char>) -> Seq<Seq<char>> {
    split_char(s, ',').map_values(|p: Seq<char>| trim(p))
}

/// The tags a response declares in `x-cache-tags` (else `X-Cache-Tags`).
pub open spec fn response_tags(r: Response) -> Seq<Seq<char>> {
    let m = r.header_map();
    if m.dom().contains("x-cache-tags"@) {
        tag_list(m["x-cache-tags"@])
    } else if m.dom().contains("X-Cache-Tags"@) {
        tag_list(m["X-Cache-Tags"@])
    } else {
        Seq::empty()
    }
}

/// The time-to-live a response asks for in `x-cache-ttl` (else `X-Cache-TTL`),
/// or the default when absent or not a number.
pub open spec fn response_ttl(r: Response, default_ttl: u64) -> u64 {
    let m = r.header_map();
    let t = if m.dom().contains("x-cache-ttl"@) {
        Some(m["x-cache-ttl"@])
    } else if m.dom().contains("X-Cache-TTL"@) {
        Some(m["X-Cache-TTL"@])
    } else {
        None
    };
    match t {
        Some(v) => match parse_uint(v, u64::MAX as nat) {
            Some(n) => n as u64,
            None => default_ttl,
        },
        None => default_ttl,
    }
}

/// What the cache decides before the handler.
pub enum CacheLookup {
    /// The request is not cached.
    Bypass,
    /// Not in the cache: the response is to be stored under this key.
    Miss(String),
    /// Answered from the cache.
    Hit(Response),
}

impl CacheMiddleware {
    /// The entry to store for a response, cached at `now` for `ttl` seconds.
    pub fn create_cached_response(&self, response: &Response, ttl: u64, now: u64) -> (res: CachedResponse)
        requires
            response.wf(),
        ensures
            res.body@ == response.body@,
            res.status == response.status,
            res.headers.wf(),
            res.headers.to_map().map_values(|v: String| v@) == response.header_map(),
            res.cached_at == now,
            res.ttl == ttl,
            res.etag is Some == self.config.enable_etag,
            res.last_modified is Some == self.config.enable_last_modified,
            views(res.tags@) == response_tags(*response),
    {
        let etag = if self.config.enable_etag { Some(self.generate_etag(response)) } else { None };
        let last_modified = if self.config.enable_last_modified { Some(http_date_now()) } else { None };
        let tags_str = match response.get_header("x-cache-tags") {
            Some(t) => Some(t),
            None => response.get_header("X-Cache-Tags"),
        };
        let tags = match tags_str {
            Some(t) => {
                let pieces = split_str(t.as_str(), ',');
                let mut out: Vec<String> = Vec::new();
                let mut i: usize = 0;
                while i < pieces.len()
                    invariant
                        i <= pieces@.len(),
                        out@.len() == i,
                        forall|j: int| 0 <= j < i ==> #[trigger] out@[j]@ == trim(pieces@[j]@),
                    decreases pieces.len() - i,
                {
                    out.push(str_trim(pieces[i].as_str()));
                    i = i + 1;
                }
                assert(views(out@) =~= tag_list(t@));
                out
            },
            None => {
                let v: Vec<String> = Vec::new();
                assert(views(v@) =~= Seq::<Seq<char>>::empty());
                v
            },
        };
        CachedResponse {
            body: response.body.clone(),
            status: response.status,
            headers: copy_headers(&response.headers),
            cached_at: now,
            ttl,
            etag,
            last_modified,
            tags,
        }
    }

    /// Rebuild a response from a cached entry at `now`: its status, headers and
    /// body, marked `X-Cache: HIT`, with the remaining time-to-live as
    /// `Cache-Control` while it lasts, and its ETag and Last-Modified.
    pub fn restore_response(cached: &CachedResponse, now: u64) -> (res: Response)
        requires
            cached.headers.wf(),
            cached.cached_at + cached.ttl <= u64::MAX,
        ensures
            res.wf(),
            res.status == cached.status,
            res.body@ == cached.body@,
            ({
                let m1 = headers_applied(Map::empty(), cached.headers.entries@);
                let m2 = crate::cors::set_hdr(m1, "X-Cache"@, "HIT"@);
                let m3 = if !cached.expired_at(now) {
                    crate::cors::set_hdr(m2, "Cache-Control"@, "max-age="@ + dec((cached.cached_at + cached.ttl - now) as nat))
                } else {
                    m2
                };
                let m4 = match cached.etag { Some(e) => crate::cors::set_hdr(m3, "ETag"@, e@), None => m3 };
                res.header_map() == match cached.last_modified { Some(l) => crate::cors::set_hdr(m4, "Last-Modified"@, l@), None => m4 }
            }),
    {
        let mut response = Response::new(cached.status);
        let mut i: usize = 0;
        let ghost hs = cached.headers.entries@;
        assert(hs.subrange(0, 0) =~= Seq::<(String, String)>::empty());
        assert(response.header_map() =~= headers_applied(Map::empty(), hs.subrange(0, 0)));
        while i < cached.headers.entries.len()
            invariant
                hs == cached.headers.entries@,
                i <= hs.len(),
                response.wf(),
                response.status == cached.status,
                response.header_map() == headers_applied(Map::empty(), hs.subrange(0, i as int)),
            decreases cached.headers.entries.len() - i,
        {
            response.set_header(cached.headers.entries[i].0.as_str(), cached.headers.entries[i].1.as_str());
            assert(hs.subrange(0, i as int + 1).drop_last() =~= hs.subrange(0, i as int));
            i = i + 1;
        }
        assert(hs.subrange(0, hs.len() as int) =~= hs);
        response.body = cached.body.clone();
        response.set_header("X-Cache", "HIT");
        let remaining = cached.remaining_ttl_at(now);
        if remaining > 0 {
            let mut cc = String::from_str("max-age=");
            append_u64(&mut cc, remaining);
            response.set_header("Cache-Control", cc.as_str());
        } else {
            proof {
                if !cached.expired_at(now) {
                    assert(cached.cached_at + cached.ttl - now > 0);
                }
            }
        }
        match &cached.etag {
            Some(e) => response.set_header("ETag", e.as_str()),
            None => {},
        }
        match &cached.last_modified {
            Some(l) => response.set_header("Last-Modified", l.as_str()),
            None => {},
        }
        response
    }

    /// Before the handler: a cacheable request is looked up under its key; a
    /// live entry answers it.
    pub fn before(&mut self, request: &Request, user: Option<&str>, now: u64) -> (res: CacheLookup)
        requires
            old(self).wf(),
            request.wf(),
        ensures
            final(self).wf(),
            !old(self).spec_cacheable(request) ==> res is Bypass && *final(self) == *old(self),
            old(self).spec_cacheable(request) ==> {
                let key = join(old(self).key_builder.spec_parts(*request, match user { Some(u) => Some(u@), None => None }), "|"@);
                let e = old(self).store.entries();
                if e.dom().contains(key) && !e[key].expired_at(now) {
                    res matches CacheLookup::Hit(r) && r.status == e[key].status && r.body@ == e[key].body@
                } else {
                    res matches CacheLookup::Miss(k) && k@ == key
                }
            },
    {
        if !self.should_cache_request(request) {
            return CacheLookup::Bypass;
        }
        let key = self.key_builder.build_key(request, user);
        let hit = match self.store.lookup(key.as_str(), now) {
            Some(c) => Some(Self::restore_response(c, now)),
            None => None,
        };
        match hit {
            Some(r) => CacheLookup::Hit(r),
            None => CacheLookup::Miss(key),
        }
    }
}

/// The headers after each entry is set in turn.
pub open spec fn headers_applied(m: Map<Seq<char>, Seq<char>>, hs: Seq<(String, String)>) -> Map<Seq<char>, Seq<char>>
    decreases hs.len(),
{
    if hs.len() == 0 {
        m
    } else {
        crate::cors::set_hdr(headers_applied(m, hs.drop_last()), hs.last().0@, hs.last().1@)
    }
}

impl CacheMiddleware {
    /// The time-to-live a response asks for.
    fn ttl_of(&self, response: &Response) -> (res: u64)
        requires
            response.wf(),
        ensures
            res == response_ttl(*response, self.config.default_ttl),
    {
        let t = match response.get_header("x-cache-ttl") {
            Some(v) => Some(v),
            None => response.get_header("X-Cache-TTL"),
        };
        match t {
            Some(v) => match parse_u64(v.as_str()) {
                Some(n) => n,
                None => self.config.default_ttl,
            },
            None => self.config.default_ttl,
        }
    }

    /// After the handler: for a cacheable request looked up under `key`, a
    /// response of a listed status is stored (when its expiry fits the clock)
    /// and marked `X-Cache: MISS` with the default max-age; any other is marked
    /// `X-Cache: BYPASS`.
    pub fn after(&mut self, request: &Request, key: Option<&str>, response: &mut Response, now: u64)
        requires
            old(self).wf(),
            request.wf(),
            old(response).wf(),
        ensures
            final(self).wf(),
            final(response).wf(),
            final(response).status == old(response).status,
            final(response).body == old(response).body,
            !(old(self).spec_cacheable(request) && key is Some) ==> *final(response) == *old(response)
                && final(self).store == old(self).store,
            (old(self).spec_cacheable(request) && key is Some && old(self).config.status_codes@.contains(old(response).status))
                ==> final(response).header_map() == crate::cors::set_hdr(crate::cors::set_hdr(old(response).header_map(),
                    "X-Cache"@, "MISS"@), "Cache-Control"@, "max-age="@ + dec(old(self).config.default_ttl as nat))
                && (now + response_ttl(*old(response), old(self).config.default_ttl) <= u64::MAX
                    && old(self).store.entries().dom().insert(key->0@).len() <= old(self).store.max_size
                    ==> final(self).store.entries().dom().contains(key->0@)
                        && final(self).store.entries()[key->0@].status == old(response).status
                        && final(self).store.entries()[key->0@].body@ == old(response).body@),
            (old(self).spec_cacheable(request) && key is Some && !old(self).config.status_codes@.contains(old(response).status))
                ==> final(response).header_map() == crate::cors::set_hdr(old(response).header_map(), "X-Cache"@, "BYPASS"@)
                    && final(self).store == old(self).store,
    {
        if !self.should_cache_request(request) {
            return;
        }
        let k = match key {
            Some(k) => k,
            None => {
                return;
            },
        };
        if self.should_cache_response(response) {
            let ttl = self.ttl_of(response);
            if ttl <= u64::MAX - now {
                let cached = self.create_cached_response(response, ttl, now);
                proof {
                    assert(old(self).store.entries().insert(k@, cached).dom() =~= old(self).store.entries().dom().insert(k@));
                }
                self.store.put(k, cached, now);
            }
            response.set_header("X-Cache", "MISS");
            let mut cc = String::from_str("max-age=");
            append_u64(&mut cc, self.config.default_ttl);
            response.set_header("Cache-Control", cc.as_str());
        } else {
            response.set_header("X-Cache", "BYPASS");
        }
    }

    /// Runs after authentication, before other processing.
    pub fn priority(&self) -> (res: i32)
        ensures
            res == -50,
    {
        -50
    }

    /// The middleware's name.
    pub fn name(&self) -> (res: &'static str)
        ensures
            res@ == "cache"@,
    {
        "cache"
    }
}

/// Which requests the cache serves and stores: none whose method is not
/// listed, none under an excluded path, and, when include paths are listed,
/// none outside all of them; a listed method on a path under an include path
/// (or on any path when none are listed) and under no excluded path is.
pub proof fn lemma_cacheable_paths(m: CacheMiddleware, r: Request)
    ensures
        !(exists|i: int| 0 <= i < m.config.methods@.len() && #[trigger] m.config.methods@[i]@ == r.method@)
            ==> !m.spec_cacheable(&r),
        (exists|i: int| 0 <= i < m.config.exclude_paths@.len() && skip_match(r.path@, #[trigger] m.config.exclude_paths@[i]@))
            ==> !m.spec_cacheable(&r),
        m.config.include_paths@.len() > 0
            && (forall|i: int| 0 <= i < m.config.include_paths@.len() ==> !skip_match(r.path@, #[trigger] m.config.include_paths@[i]@))
            ==> !m.spec_cacheable(&r),
        (exists|i: int| 0 <= i < m.config.methods@.len() && #[trigger] m.config.methods@[i]@ == r.method@)
            && (forall|i: int| 0 <= i < m.config.exclude_paths@.len() ==> !skip_match(r.path@, #[trigger] m.config.exclude_paths@[i]@))
            && (m.config.include_paths@.len() == 0
                || exists|i: int| 0 <= i < m.config.include_paths@.len() && skip_match(r.path@, #[trigger] m.config.include_paths@[i]@))
            ==> m.spec_cacheable(&r),
{
}

} // verus!
