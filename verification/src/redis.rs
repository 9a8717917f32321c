//! Redis connection configuration, pool counters and error messages.
use vstd::prelude::*;
use vstd::string::*;
use crate::text::owned;
use crate::strmap::StrMap;
use crate::session::expiry;
use crate::time::Duration;

verus! {

/// Redis configuration.
pub struct RedisConfig {
    /// Redis URL (e.g., redis://localhost:6379)
    pub url: String,
    /// Maximum number of connections in the pool
    pub pool_size: usize,
    /// Minimum number of idle connections
    pub min_idle: usize,
    /// Maximum time to wait for a connection
    pub connection_timeout: Duration,
    /// Idle timeout before closing a connection
    pub idle_timeout: Duration,
    /// Enable cluster mode
    pub cluster_mode: bool,
    /// Default TTL for keys (seconds)
    pub default_ttl: Option<u64>,
    /// Database number (0-15)
    pub database: u8,
    /// Connection password
    pub password: Option<String>,
    /// Enable TLS
    pub tls: bool,
    /// Key prefix for namespacing
    pub key_prefix: Option<String>,
}

impl RedisConfig {
    /// Everything but the URL at its default: 10 connections, 1 idle, 5 s to
    /// connect, 300 s idle timeout, no cluster, no TTL, database 0, no
    /// password, no TLS, no key prefix.
    pub open spec fn defaults_besides_url(&self) -> bool {
        &&& self.pool_size == 10
        &&& self.min_idle == 1
        &&& self.connection_timeout.secs == 5
        &&& self.idle_timeout.secs == 300
        &&& !self.cluster_mode
        &&& self.default_ttl is None
        &&& self.database == 0
        &&& self.password is None
        &&& !self.tls
        &&& self.key_prefix is None
    }

    /// The default configuration, for `redis://127.0.0.1:6379`.
    pub fn default() -> (res: Self)
        ensures
            res.url@ == "redis://127.0.0.1:6379"@,
            res.defaults_besides_url(),
    {
        RedisConfig {
            url: String::from_str("redis://127.0.0.1:6379"),
            pool_size: 10,
            min_idle: 1,
            connection_timeout: Duration::from_secs(5),
            idle_timeout: Duration::from_secs(300),
            cluster_mode: false,
            default_ttl: None,
            database: 0,
            password: None,
            tls: false,
            key_prefix: None,
        }
    }

    /// The default configuration for another URL.
    pub fn new(url: &str) -> (res: Self)
        ensures
            res.url@ == url@,
            res.defaults_besides_url(),
    {
        let mut c = Self::default();
        c.url = owned(url);
        c
    }

    /// Set the pool size.
    pub fn pool_size(self, size: usize) -> (res: Self)
        ensures
            res == (RedisConfig { pool_size: size, ..self }),
    {
        let mut c = self;
        c.pool_size = size;
        c
    }

    /// Enable or disable cluster mode.
    pub fn cluster_mode(self, enabled: bool) -> (res: Self)
        ensures
            res == (RedisConfig { cluster_mode: enabled, ..self }),
    {
        let mut c = self;
        c.cluster_mode = enabled;
        c
    }

    /// Set the default TTL in seconds.
    pub fn default_ttl(self, ttl: u64) -> (res: Self)
        ensures
            res == (RedisConfig { default_ttl: Some(ttl), ..self }),
    {
        let mut c = self;
        c.default_ttl = Some(ttl);
        c
    }

    /// Set the database number.
    pub fn database(self, db: u8) -> (res: Self)
        ensures
            res == (RedisConfig { database: db, ..self }),
    {
        let mut c = self;
        c.database = db;
        c
    }

    /// Set the key prefix.
    pub fn key_prefix(self, prefix: &str) -> (res: Self)
        ensures
            res.key_prefix matches Some(p) && p@ == prefix@,
            res == (RedisConfig { key_prefix: res.key_prefix, ..self }),
    {
        let mut c = self;
        c.key_prefix = Some(owned(prefix));
        c
    }
}

/// Redis pool counters.  Every counter moves on modulo its width, as the atomic
/// counters they stand for do.
#[derive(Clone, Copy, Debug, PartialEq, Eq, Structural)]
pub struct RedisPoolMetrics {
    pub total_connections: u64,
    pub active_connections: usize,
    pub idle_connections: usize,
    pub total_commands: u64,
    pub total_errors: u64,
    pub command_time_sum_ms: u64,
    pub peak_active: usize,
    pub connection_timeouts: u64,
    pub total_keys_set: u64,
    pub total_keys_get: u64,
    pub cache_hits: u64,
    pub cache_misses: u64,
}

impl RedisPoolMetrics {
    /// All counters at zero.
    pub fn default() -> (res: Self)
        ensures
            res == (RedisPoolMetrics {
                total_connections: 0,
                active_connections: 0,
                idle_connections: 0,
                total_commands: 0,
                total_errors: 0,
                command_time_sum_ms: 0,
                peak_active: 0,
                connection_timeouts: 0,
                total_keys_set: 0,
                total_keys_get: 0,
                cache_hits: 0,
                cache_misses: 0,
            }),
    {
        RedisPoolMetrics {
            total_connections: 0,
            active_connections: 0,
            idle_connections: 0,
            total_commands: 0,
            total_errors: 0,
            command_time_sum_ms: 0,
            peak_active: 0,
            connection_timeouts: 0,
            total_keys_set: 0,
            total_keys_get: 0,
            cache_hits: 0,
            cache_misses: 0,
        }
    }

    /// All counters at zero.
    pub open spec fn zeroed() -> Self {
        RedisPoolMetrics {
            total_connections: 0,
            active_connections: 0,
            idle_connections: 0,
            total_commands: 0,
            total_errors: 0,
            command_time_sum_ms: 0,
            peak_active: 0,
            connection_timeouts: 0,
            total_keys_set: 0,
            total_keys_get: 0,
            cache_hits: 0,
            cache_misses: 0,
        }
    }

    /// The counters after a read that found a value (`hit`) or not.
    pub open spec fn after_get(self, hit: bool) -> Self {
        RedisPoolMetrics {
            total_keys_get: self.total_keys_get.wrapping_add(1),
            cache_hits: if hit { self.cache_hits.wrapping_add(1) } else { self.cache_hits },
            cache_misses: if hit { self.cache_misses } else { self.cache_misses.wrapping_add(1) },
            ..self
        }
    }

    /// The counters after a successful command that took `ms` milliseconds.
    pub open spec fn after_command(self, ms: u64) -> Self {
        RedisPoolMetrics {
            total_commands: self.total_commands.wrapping_add(1),
            command_time_sum_ms: self.command_time_sum_ms.wrapping_add(ms),
            ..self
        }
    }

    /// The counters after a key was set.
    pub open spec fn after_set(self) -> Self {
        RedisPoolMetrics { total_keys_set: self.total_keys_set.wrapping_add(1), ..self }
    }

    /// A connection is opened: one more in total and active; the peak follows.
    pub fn record_connection(&mut self)
        ensures
            final(self).total_connections == old(self).total_connections.wrapping_add(1),
            final(self).active_connections == old(self).active_connections.wrapping_add(1),
            final(self).peak_active == if final(self).active_connections > old(self).peak_active {
                final(self).active_connections
            } else {
                old(self).peak_active
            },
            *final(self) == (RedisPoolMetrics {
                total_connections: final(self).total_connections,
                active_connections: final(self).active_connections,
                peak_active: final(self).peak_active,
                ..*old(self)
            }),
    {
        self.total_connections = self.total_connections.wrapping_add(1);
        let active = self.active_connections.wrapping_add(1);
        self.active_connections = active;
        if active > self.peak_active {
            self.peak_active = active;
        }
    }

    /// A connection goes back to the pool: one less active, one more idle.
    pub fn release_connection(&mut self)
        ensures
            final(self).active_connections == old(self).active_connections.wrapping_sub(1),
            final(self).idle_connections == old(self).idle_connections.wrapping_add(1),
            *final(self) == (RedisPoolMetrics {
                active_connections: final(self).active_connections,
                idle_connections: final(self).idle_connections,
                ..*old(self)
            }),
    {
        self.active_connections = self.active_connections.wrapping_sub(1);
        self.idle_connections = self.idle_connections.wrapping_add(1);
    }

    /// A command ran for `duration_ms`, failing or not.
    pub fn record_command(&mut self, duration_ms: u64, error: bool)
        ensures
            final(self).total_commands == old(self).total_commands.wrapping_add(1),
            final(self).command_time_sum_ms == old(self).command_time_sum_ms.wrapping_add(duration_ms),
            final(self).total_errors == if error { old(self).total_errors.wrapping_add(1) } else { old(self).total_errors },
            *final(self) == (RedisPoolMetrics {
                total_commands: final(self).total_commands,
                command_time_sum_ms: final(self).command_time_sum_ms,
                total_errors: final(self).total_errors,
                ..*old(self)
            }),
    {
        self.total_commands = self.total_commands.wrapping_add(1);
        self.command_time_sum_ms = self.command_time_sum_ms.wrapping_add(duration_ms);
        if error {
            self.total_errors = self.total_errors.wrapping_add(1);
        }
    }

    /// A key was set.
    pub fn record_set(&mut self)
        ensures
            *final(self) == (RedisPoolMetrics { total_keys_set: old(self).total_keys_set.wrapping_add(1), ..*old(self) }),
    {
        self.total_keys_set = self.total_keys_set.wrapping_add(1);
    }

    /// A key was read, found or not.
    pub fn record_get(&mut self, hit: bool)
        ensures
            final(self).total_keys_get == old(self).total_keys_get.wrapping_add(1),
            final(self).cache_hits == if hit { old(self).cache_hits.wrapping_add(1) } else { old(self).cache_hits },
            final(self).cache_misses == if hit { old(self).cache_misses } else { old(self).cache_misses.wrapping_add(1) },
            *final(self) == (RedisPoolMetrics {
                total_keys_get: final(self).total_keys_get,
                cache_hits: final(self).cache_hits,
                cache_misses: final(self).cache_misses,
                ..*old(self)
            }),
    {
        self.total_keys_get = self.total_keys_get.wrapping_add(1);
        if hit {
            self.cache_hits = self.cache_hits.wrapping_add(1);
        } else {
            self.cache_misses = self.cache_misses.wrapping_add(1);
        }
    }

    /// A connection attempt timed out.
    pub fn record_timeout(&mut self)
        ensures
            *final(self) == (RedisPoolMetrics { connection_timeouts: old(self).connection_timeouts.wrapping_add(1), ..*old(self) }),
    {
        self.connection_timeouts = self.connection_timeouts.wrapping_add(1);
    }
}

/// The peak never falls below the active count once recorded: opening a
/// connection keeps the peak at least the active count.
pub proof fn lemma_peak_covers_active(before: RedisPoolMetrics, after: RedisPoolMetrics)
    requires
        after.active_connections == before.active_connections.wrapping_add(1),
        after.peak_active == if after.active_connections > before.peak_active {
            after.active_connections
        } else {
            before.peak_active
        },
    ensures
        after.peak_active >= after.active_connections,
        after.peak_active >= before.peak_active,
{
}

/// Redis error types.
#[derive(Debug)]
pub enum RedisError {
    /// Connection error
    Connection(String),
    /// Command error
    Command(String),
    /// Pool exhausted
    PoolExhausted,
    /// Connection timeout
    Timeout,
    /// Serialization error
    Serialization(String),
    /// Key not found
    NotFound(String),
    /// Cluster error
    Cluster(String),
    /// Unknown error
    Unknown(String),
}

impl RedisError {
    /// The error message.
    pub open spec fn spec_message(&self) -> Seq<char> {
        match self {
            RedisError::Connection(m) => "Redis connection error: "@ + m@,
            RedisError::Command(m) => "Redis command error: "@ + m@,
            RedisError::PoolExhausted => "Redis connection pool exhausted"@,
            RedisError::Timeout => "Redis connection timeout"@,
            RedisError::Serialization(m) => "Redis serialization error: "@ + m@,
            RedisError::NotFound(k) => "Redis key not found: "@ + k@,
            RedisError::Cluster(m) => "Redis cluster error: "@ + m@,
            RedisError::Unknown(m) => "Redis unknown error: "@ + m@,
        }
    }

    /// The error message.
    pub fn to_string(&self) -> (res: String)
        ensures
            res@ == self.spec_message(),
    {
        let (mut s, tail) = match self {
            RedisError::Connection(m) => (String::from_str("Redis connection error: "), Some(m)),
            RedisError::Command(m) => (String::from_str("Redis command error: "), Some(m)),
            RedisError::PoolExhausted => (String::from_str("Redis connection pool exhausted"), None),
            RedisError::Timeout => (String::from_str("Redis connection timeout"), None),
            RedisError::Serialization(m) => (String::from_str("Redis serialization error: "), Some(m)),
            RedisError::NotFound(k) => (String::from_str("Redis key not found: "), Some(k)),
            RedisError::Cluster(m) => (String::from_str("Redis cluster error: "), Some(m)),
            RedisError::Unknown(m) => (String::from_str("Redis unknown error: "), Some(m)),
        };
        match tail {
            Some(m) => s.append(m.as_str()),
            None => {},
        }
        s
    }
}

// ============================================================================
// Values
// ============================================================================

/// A value held under a Redis key.
pub enum RedisValue {
    Nil,
    String(String),
    Bytes(Vec<u8>),
    Integer(i64),
    /// A floating-point number, by the bits of its IEEE 754 double.
    Float(u64),
    Bool(bool),
    Array(Vec<RedisValue>),
    /// A hash: its fields in order, each name once.
    Hash(Vec<(String, RedisValue)>),
}

/// Two values hold the same data.
pub open spec fn redis_same(a: RedisValue, b: RedisValue) -> bool
    decreases a,
{
    match (a, b) {
        (RedisValue::Array(x), RedisValue::Array(y)) => x@.len() == y@.len() && forall|i: int|
            0 <= i < x@.len() ==> redis_same(#[trigger] x@[i], y@[i]),
        (RedisValue::Hash(x), RedisValue::Hash(y)) => x@.len() == y@.len() && forall|i: int|
            0 <= i < x@.len() ==> (#[trigger] x@[i]).0@ == y@[i].0@ && redis_same(x@[i].1, y@[i].1),
        (RedisValue::String(x), RedisValue::String(y)) => x@ == y@,
        (RedisValue::Bytes(x), RedisValue::Bytes(y)) => x@ == y@,
        (RedisValue::Array(_), _) => false,
        (RedisValue::Hash(_), _) => false,
        (RedisValue::String(_), _) => false,
        (RedisValue::Bytes(_), _) => false,
        _ => a == b,
    }
}

/// Every value holds the same data as itself.
pub proof fn lemma_redis_same_refl(v: RedisValue)
    ensures
        redis_same(v, v),
    decreases v,
{
    match v {
        RedisValue::Array(x) => {
            assert forall|i: int| 0 <= i < x@.len() implies redis_same(#[trigger] x@[i], x@[i]) by {
                assert(decreases_to!(v => v->Array_0));
                assert(decreases_to!(x => x@));
                assert(decreases_to!(x@ => x@[i]));
                lemma_redis_same_refl(x@[i]);
            }
        },
        RedisValue::Hash(x) => {
            assert forall|i: int| 0 <= i < x@.len() implies (#[trigger] x@[i]).0@ == x@[i].0@ && redis_same(x@[i].1, x@[i].1) by {
                assert(decreases_to!(v => v->Hash_0));
                assert(decreases_to!(x => x@));
                assert(decreases_to!(x@ => x@[i]));
                assert(decreases_to!(x@[i] => x@[i].1));
                lemma_redis_same_refl(x@[i].1);
            }
        },
        _ => {},
    }
}

impl RedisValue {
    /// A copy holding the same data.
    pub fn copy(&self) -> (res: Self)
        ensures
            redis_same(*self, res),
        decreases self,
    {
        match self {
            RedisValue::Nil => RedisValue::Nil,
            RedisValue::String(s) => RedisValue::String(s.clone()),
            RedisValue::Bytes(b) => RedisValue::Bytes(b.clone()),
            RedisValue::Integer(i) => RedisValue::Integer(*i),
            RedisValue::Float(f) => RedisValue::Float(*f),
            RedisValue::Bool(b) => RedisValue::Bool(*b),
            RedisValue::Array(items) => {
                let mut out: Vec<RedisValue> = Vec::new();
                let mut i: usize = 0;
                while i < items.len()
                    invariant
                        *self == RedisValue::Array(*items),
                        i <= items@.len(),
                        out@.len() == i,
                        forall|k: int| 0 <= k < i ==> redis_same(#[trigger] items@[k], out@[k]),
                    decreases items.len() - i,
                {
                    proof {
                        assert((*self)->Array_0 == *items);
                        assert(decreases_to!(*self => (*self)->Array_0));
                        assert(decreases_to!(*items => items@));
                        assert(decreases_to!(items@ => items@[i as int]));
                        assert(decreases_to!(*self => items@[i as int]));
                    }
                    out.push(items[i].copy());
                    i = i + 1;
                }
                RedisValue::Array(out)
            },
            RedisValue::Hash(fields) => {
                let mut out: Vec<(String, RedisValue)> = Vec::new();
                let mut i: usize = 0;
                while i < fields.len()
                    invariant
                        *self == RedisValue::Hash(*fields),
                        i <= fields@.len(),
                        out@.len() == i,
                        forall|k: int| 0 <= k < i ==> (#[trigger] fields@[k]).0@ == out@[k].0@ && redis_same(fields@[k].1, out@[k].1),
                    decreases fields.len() - i,
                {
                    proof {
                        assert((*self)->Hash_0 == *fields);
                        assert(decreases_to!(*self => (*self)->Hash_0));
                        assert(decreases_to!(*fields => fields@));
                        assert(decreases_to!(fields@ => fields@[i as int]));
                        assert(decreases_to!(fields@[i as int] => fields@[i as int].1));
                        assert(decreases_to!(*self => fields@[i as int].1));
                    }
                    out.push((fields[i].0.clone(), fields[i].1.copy()));
                    i = i + 1;
                }
                RedisValue::Hash(out)
            },
        }
    }

    /// The text of a string value.
    pub fn as_str(&self) -> (res: Option<&str>)
        ensures
            match self {
                RedisValue::String(s) => res matches Some(r) && r@ == s@,
                _ => res is None,
            },
    {
        match self {
            RedisValue::String(s) => Some(s.as_str()),
            _ => None,
        }
    }

    /// The number of an integer value.
    pub fn as_i64(&self) -> (res: Option<i64>)
        ensures
            res == match self {
                RedisValue::Integer(i) => Some(*i),
                _ => None,
            },
    {
        match self {
            RedisValue::Integer(i) => Some(*i),
            _ => None,
        }
    }

    /// The bytes of a byte value, or the UTF-8 bytes of a string value.
    pub fn as_bytes(&self) -> (res: Option<&[u8]>)
        ensures
            match self {
                RedisValue::Bytes(b) => res matches Some(r) && r@ == b@,
                RedisValue::String(s) => res matches Some(r) && r@ == vstd::utf8::encode_utf8(s@),
                _ => res is None,
            },
    {
        match self {
            RedisValue::Bytes(b) => Some(b.as_slice()),
            RedisValue::String(s) => Some(s.as_str().as_bytes()),
            _ => None,
        }
    }

    /// Whether the value is nil.
    pub fn is_nil(&self) -> (res: bool)
        ensures
            res == (*self is Nil),
    {
        match self {
            RedisValue::Nil => true,
            _ => false,
        }
    }
}

// ============================================================================
// In-memory client
// ============================================================================

/// An in-memory Redis client for tests: values by key, the moments keys
/// expire (nanoseconds after the client was made), pool counters and a health
/// flag.
pub struct MockRedisClient {
    pub config: RedisConfig,
    pub metrics: RedisPoolMetrics,
    pub data: StrMap<RedisValue>,
    pub ttls: StrMap<u128>,
    pub healthy: bool,
    pub origin: std::time::Instant,
}

/// The nanoseconds in a duration, saturated to `u128`.
fn ttl_nanos(ttl: Duration) -> (res: u128)
    ensures
        res == ttl.total_nanos(),
{
    ttl.secs as u128 * 1_000_000_000 + ttl.nanos as u128
}

impl MockRedisClient {
    pub open spec fn wf(&self) -> bool {
        self.data.wf() && self.ttls.wf()
    }

    /// The values by key.
    pub open spec fn values(&self) -> Map<Seq<char>, RedisValue> {
        self.data.to_map()
    }

    /// The expiry moments by key.
    pub open spec fn expiries(&self) -> Map<Seq<char>, u128> {
        self.ttls.to_map()
    }

    /// Whether `key` has expired at `now`.
    pub open spec fn expired(&self, key: Seq<char>, now: u128) -> bool {
        self.expiries().dom().contains(key) && now > self.expiries()[key]
    }

    /// The value under `key` that is still live at `now`.
    pub open spec fn live(&self, key: Seq<char>, now: u128) -> Option<RedisValue> {
        if !self.expired(key, now) && self.values().dom().contains(key) {
            Some(self.values()[key])
        } else {
            None
        }
    }

    /// The values once an expired `key` is dropped at `now`.
    pub open spec fn values_cleaned(&self, key: Seq<char>, now: u128) -> Map<Seq<char>, RedisValue> {
        if self.expired(key, now) { self.values().remove(key) } else { self.values() }
    }

    /// The expiries once an expired `key` is dropped at `now`.
    pub open spec fn expiries_cleaned(&self, key: Seq<char>, now: u128) -> Map<Seq<char>, u128> {
        if self.expired(key, now) { self.expiries().remove(key) } else { self.expiries() }
    }

    /// The setup that commands leave alone.
    pub open spec fn same_setup(&self, other: &Self) -> bool {
        self.config == other.config && self.healthy == other.healthy && self.origin == other.origin
    }

    /// An empty, healthy client with zeroed counters.
    pub fn new(config: RedisConfig) -> (res: Self)
        ensures
            res.wf(),
            res.config == config,
            res.values() == Map::<Seq<char>, RedisValue>::empty(),
            res.expiries() == Map::<Seq<char>, u128>::empty(),
            res.healthy,
            res.metrics == RedisPoolMetrics::zeroed(),
    {
        MockRedisClient {
            config,
            metrics: RedisPoolMetrics::default(),
            data: StrMap::new(),
            ttls: StrMap::new(),
            healthy: true,
            origin: crate::cluster::instant_now(),
        }
    }

    /// Mark the client healthy or not.
    pub fn set_healthy(&mut self, healthy: bool)
        ensures
            *final(self) == (MockRedisClient { healthy, ..*old(self) }),
    {
        self.healthy = healthy;
    }

    /// Whether the client is healthy.
    pub fn is_healthy(&self) -> (res: bool)
        ensures
            res == self.healthy,
    {
        self.healthy
    }

    /// The pool counters.
    pub fn stats(&self) -> (res: RedisPoolMetrics)
        ensures
            res == self.metrics,
    {
        self.metrics
    }

    /// Close all connections (nothing to close).
    pub fn close(&self) {
    }

    /// Publish a message: no one subscribes, so nobody receives it.
    pub fn publish(&self, channel: &str, message: &str) -> (res: Result<i64, RedisError>)
        ensures
            res matches Ok(0i64),
    {
        Ok(0)
    }

    /// The time now, in nanoseconds since the client was made.
    fn now(&self) -> u128 {
        crate::cluster::elapsed_nanos(&self.origin)
    }

    /// Milliseconds from `start` to now.
    fn millis_since(&self, start: u128) -> u64 {
        let end = self.now();
        let ms = end.saturating_sub(start) / 1_000_000;
        if ms > u64::MAX as u128 { u64::MAX } else { ms as u64 }
    }

    /// Drop `key` when it has expired at `now`.
    fn clean_expired(&mut self, key: &str, now: u128)
        requires
            old(self).wf(),
        ensures
            final(self).wf(),
            final(self).values() == old(self).values_cleaned(key@, now),
            final(self).expiries() == old(self).expiries_cleaned(key@, now),
            final(self).metrics == old(self).metrics,
            final(self).same_setup(old(self)),
    {
        let expired = match self.ttls.get(key) {
            Some(t) => now > *t,
            None => false,
        };
        if expired {
            self.data.remove(key);
            self.ttls.remove(key);
        }
    }

    /// Read `key` at `now` (store time), a read that took `took_ms`: an
    /// expired key is dropped first; a copy of the live value, if any.
    pub fn get_at(&mut self, key: &str, now: u128, took_ms: u64) -> (res: Result<Option<RedisValue>, RedisError>)
        requires
            old(self).wf(),
        ensures
            final(self).wf(),
            final(self).values() == old(self).values_cleaned(key@, now),
            final(self).expiries() == old(self).expiries_cleaned(key@, now),
            match old(self).live(key@, now) {
                Some(v) => res matches Ok(Some(r)) && redis_same(v, r),
                None => res matches Ok(None),
            },
            final(self).metrics == old(self).metrics.after_get(old(self).live(key@, now) is Some).after_command(took_ms),
            final(self).same_setup(old(self)),
    {
        self.clean_expired(key, now);
        let result = match self.data.get(key) {
            Some(v) => Some(v.copy()),
            None => None,
        };
        self.metrics.record_get(result.is_some());
        self.metrics.record_command(took_ms, false);
        Ok(result)
    }

    /// Read `key` now (see `get_at`).
    pub fn get(&mut self, key: &str) -> (res: Result<Option<RedisValue>, RedisError>)
        requires
            old(self).wf(),
        ensures
            final(self).wf(),
    {
        let start = self.now();
        let took = self.millis_since(start);
        self.get_at(key, start, took)
    }

    /// Set `key` to `value` at `now`, to expire `ttl` later when one is given;
    /// a write that took `took_ms`.
    pub fn set_at(&mut self, key: &str, value: RedisValue, ttl: Option<Duration>, now: u128, took_ms: u64) -> (res: Result<(), RedisError>)
        requires
            old(self).wf(),
        ensures
            final(self).wf(),
            res is Ok,
            final(self).values() == old(self).values().insert(key@, value),
            final(self).expiries() == match ttl {
                Some(t) => old(self).expiries().insert(key@, expiry(now, t)),
                None => old(self).expiries(),
            },
            final(self).metrics == old(self).metrics.after_set().after_command(took_ms),
            final(self).same_setup(old(self)),
    {
        self.data.insert(owned(key), value);
        match ttl {
            Some(t) => {
                let expires = now.saturating_add(ttl_nanos(t));
                self.ttls.insert(owned(key), expires);
            },
            None => {},
        }
        self.metrics.record_set();
        self.metrics.record_command(took_ms, false);
        Ok(())
    }

    /// Set `key` to `value` now (see `set_at`).
    pub fn set(&mut self, key: &str, value: RedisValue, ttl: Option<Duration>) -> (res: Result<(), RedisError>)
        requires
            old(self).wf(),
        ensures
            final(self).wf(),
            res is Ok,
            final(self).values() == old(self).values().insert(key@, value),
    {
        let start = self.now();
        let took = self.millis_since(start);
        self.set_at(key, value, ttl, start, took)
    }

    /// Delete `key` (a command that took `took_ms`); whether it held a value.
    pub fn delete_at(&mut self, key: &str, took_ms: u64) -> (res: Result<bool, RedisError>)
        requires
            old(self).wf(),
        ensures
            final(self).wf(),
            res == Ok::<bool, RedisError>(old(self).values().dom().contains(key@)),
            final(self).values() == old(self).values().remove(key@),
            final(self).expiries() == old(self).expiries().remove(key@),
            final(self).metrics == old(self).metrics.after_command(took_ms),
            final(self).same_setup(old(self)),
    {
        let removed = self.data.remove(key).is_some();
        self.ttls.remove(key);
        self.metrics.record_command(took_ms, false);
        Ok(removed)
    }

    /// Delete `key` now (see `delete_at`).
    pub fn delete(&mut self, key: &str) -> (res: Result<bool, RedisError>)
        requires
            old(self).wf(),
        ensures
            final(self).wf(),
            res == Ok::<bool, RedisError>(old(self).values().dom().contains(key@)),
            final(self).values() == old(self).values().remove(key@),
    {
        let start = self.now();
        let took = self.millis_since(start);
        self.delete_at(key, took)
    }

    /// Whether `key` holds a live value at `now` (an expired key is dropped).
    pub fn exists_at(&mut self, key: &str, now: u128) -> (res: Result<bool, RedisError>)
        requires
            old(self).wf(),
        ensures
            final(self).wf(),
            res == Ok::<bool, RedisError>(old(self).live(key@, now) is Some),
            final(self).values() == old(self).values_cleaned(key@, now),
            final(self).expiries() == old(self).expiries_cleaned(key@, now),
            final(self).metrics == old(self).metrics,
            final(self).same_setup(old(self)),
    {
        self.clean_expired(key, now);
        Ok(self.data.contains_key(key))
    }

    /// Whether `key` holds a live value now (see `exists_at`).
    pub fn key_exists(&mut self, key: &str) -> (res: Result<bool, RedisError>)
        requires
            old(self).wf(),
        ensures
            final(self).wf(),
            res is Ok,
    {
        let now = self.now();
        self.exists_at(key, now)
    }

    /// Make a held `key` expire `ttl` after `now`; whether it is held.
    pub fn expire_at(&mut self, key: &str, ttl: Duration, now: u128) -> (res: Result<bool, RedisError>)
        requires
            old(self).wf(),
        ensures
            final(self).wf(),
            res == Ok::<bool, RedisError>(old(self).values().dom().contains(key@)),
            final(self).values() == old(self).values(),
            final(self).expiries() == if old(self).values().dom().contains(key@) {
                old(self).expiries().insert(key@, expiry(now, ttl))
            } else {
                old(self).expiries()
            },
            final(self).metrics == old(self).metrics,
            final(self).same_setup(old(self)),
    {
        if self.data.contains_key(key) {
            let expires = now.saturating_add(ttl_nanos(ttl));
            self.ttls.insert(owned(key), expires);
            Ok(true)
        } else {
            Ok(false)
        }
    }

    /// Make a held `key` expire `ttl` from now (see `expire_at`).
    pub fn expire(&mut self, key: &str, ttl: Duration) -> (res: Result<bool, RedisError>)
        requires
            old(self).wf(),
        ensures
            final(self).wf(),
            res == Ok::<bool, RedisError>(old(self).values().dom().contains(key@)),
    {
        let now = self.now();
        self.expire_at(key, ttl, now)
    }

    /// The integer under `key`, counting anything else as 0.
    pub open spec fn int_at(&self, key: Seq<char>) -> i64 {
        if self.values().dom().contains(key) {
            match self.values()[key] {
                RedisValue::Integer(i) => i,
                _ => 0,
            }
        } else {
            0
        }
    }

    fn int_of(&self, key: &str) -> (res: i64)
        requires
            self.wf(),
        ensures
            res == self.int_at(key@),
    {
        match self.data.get(key) {
            Some(RedisValue::Integer(i)) => *i,
            _ => 0,
        }
    }

    /// Add one to the integer under `key` (anything else counts as 0), and
    /// return it.
    pub fn incr(&mut self, key: &str) -> (res: Result<i64, RedisError>)
        requires
            old(self).wf(),
            old(self).int_at(key@) < i64::MAX,
        ensures
            final(self).wf(),
            res == Ok::<i64, RedisError>((old(self).int_at(key@) + 1) as i64),
            final(self).values() == old(self).values().insert(key@, RedisValue::Integer((old(self).int_at(key@) + 1) as i64)),
            final(self).expiries() == old(self).expiries(),
            final(self).metrics == old(self).metrics,
            final(self).same_setup(old(self)),
    {
        let n = self.int_of(key) + 1;
        self.data.insert(owned(key), RedisValue::Integer(n));
        Ok(n)
    }

    /// Take one from the integer under `key` (anything else counts as 0), and
    /// return it.
    pub fn decr(&mut self, key: &str) -> (res: Result<i64, RedisError>)
        requires
            old(self).wf(),
            old(self).int_at(key@) > i64::MIN,
        ensures
            final(self).wf(),
            res == Ok::<i64, RedisError>((old(self).int_at(key@) - 1) as i64),
            final(self).values() == old(self).values().insert(key@, RedisValue::Integer((old(self).int_at(key@) - 1) as i64)),
            final(self).expiries() == old(self).expiries(),
            final(self).metrics == old(self).metrics,
            final(self).same_setup(old(self)),
    {
        let n = self.int_of(key) - 1;
        self.data.insert(owned(key), RedisValue::Integer(n));
        Ok(n)
    }

    /// The value held under `key`, if any.
    pub open spec fn held(&self, key: Seq<char>) -> Option<RedisValue> {
        if self.values().dom().contains(key) { Some(self.values()[key]) } else { None }
    }

    /// Copies of the values under `keys`, in order (expiry is not checked).
    pub fn mget(&self, keys: &[&str]) -> (res: Result<Vec<Option<RedisValue>>, RedisError>)
        requires
            self.wf(),
        ensures
            res matches Ok(vs) && vs@.len() == keys@.len() && forall|i: int| 0 <= i < keys@.len() ==>
                match self.held((#[trigger] keys@[i])@) {
                    Some(v) => vs@[i] matches Some(r) && redis_same(v, r),
                    None => vs@[i] is None,
                },
    {
        let mut out: Vec<Option<RedisValue>> = Vec::new();
        let mut i: usize = 0;
        while i < keys.len()
            invariant
                self.wf(),
                i <= keys@.len(),
                out@.len() == i,
                forall|j: int| 0 <= j < i ==> match self.held((#[trigger] keys@[j])@) {
                    Some(v) => out@[j] matches Some(r) && redis_same(v, r),
                    None => out@[j] is None,
                },
            decreases keys.len() - i,
        {
            let v = match self.data.get(keys[i]) {
                Some(v) => Some(v.copy()),
                None => None,
            };
            out.push(v);
            i = i + 1;
        }
        Ok(out)
    }

    /// Set each key to (a copy of) its value, in turn.
    pub fn mset(&mut self, pairs: &[(&str, RedisValue)]) -> (res: Result<(), RedisError>)
        requires
            old(self).wf(),
        ensures
            final(self).wf(),
            res is Ok,
            final(self).values().dom() == set_all(old(self).values(), pair_values(pairs@)).dom(),
            forall|k: Seq<char>| #[trigger] final(self).values().dom().contains(k)
                ==> redis_same(set_all(old(self).values(), pair_values(pairs@))[k], final(self).values()[k]),
            final(self).expiries() == old(self).expiries(),
            final(self).metrics == old(self).metrics,
            final(self).same_setup(old(self)),
    {
        let ghost start = self.values();
        assert forall|k: Seq<char>| #[trigger] start.dom().contains(k) implies redis_same(start[k], start[k]) by {
            lemma_redis_same_refl(start[k]);
        }
        let mut i: usize = 0;
        while i < pairs.len()
            invariant
                self.wf(),
                i <= pairs@.len(),
                self.values().dom() == set_all(start, pair_values(pairs@).subrange(0, i as int)).dom(),
                forall|k: Seq<char>| #[trigger] self.values().dom().contains(k)
                    ==> redis_same(set_all(start, pair_values(pairs@).subrange(0, i as int))[k], self.values()[k]),
                self.expiries() == old(self).expiries(),
                self.metrics == old(self).metrics,
                self.same_setup(old(self)),
                start == old(self).values(),
            decreases pairs.len() - i,
        {
            let ghost pv = pair_values(pairs@);
            assert(pv.subrange(0, i as int + 1).drop_last() =~= pv.subrange(0, i as int));
            assert(pv.subrange(0, i as int + 1).last() == pv[i as int]);
            let (k, v) = &pairs[i];
            self.data.insert(owned(k), v.copy());
            i = i + 1;
        }
        assert(pair_values(pairs@).subrange(0, pairs@.len() as int) =~= pair_values(pairs@));
        Ok(())
    }

    /// A copy of field `field` of the hash under `key`; nothing when there is
    /// no such hash or field.
    pub fn hget(&self, key: &str, field: &str) -> (res: Result<Option<RedisValue>, RedisError>)
        requires
            self.wf(),
        ensures
            match self.held(key@) {
                Some(RedisValue::Hash(fs)) => match hash_field(fields_view(fs@), field@) {
                    Some(v) => res matches Ok(Some(r)) && redis_same(v, r),
                    None => res matches Ok(None),
                },
                _ => res matches Ok(None),
            },
    {
        match self.data.get(key) {
            Some(RedisValue::Hash(fs)) => match find_field(fs, field) {
                Some(i) => Ok(Some(fs[i].1.copy())),
                None => Ok(None),
            },
            _ => Ok(None),
        }
    }

    /// Set field `field` of the hash under `key` (made when the key is free);
    /// a key that holds something else is left as it is.
    pub fn hset(&mut self, key: &str, field: &str, value: RedisValue) -> (res: Result<(), RedisError>)
        requires
            old(self).wf(),
        ensures
            final(self).wf(),
            res is Ok,
            final(self).values().remove(key@) == old(self).values().remove(key@),
            match old(self).held(key@) {
                None => final(self).values()[key@] matches RedisValue::Hash(nf)
                    && fields_view(nf@) == seq![(field@, value)] && final(self).values().dom().contains(key@),
                Some(RedisValue::Hash(fs)) => final(self).values()[key@] matches RedisValue::Hash(nf)
                    && fields_view(nf@) == with_field(fields_view(fs@), field@, value)
                    && final(self).values().dom().contains(key@),
                Some(_) => final(self).values() == old(self).values(),
            },
            final(self).expiries() == old(self).expiries(),
            final(self).metrics == old(self).metrics,
            final(self).same_setup(old(self)),
    {
        let ghost m0 = self.values();
        match self.data.remove(key) {
            None => {
                let fs = vec![(owned(field), value)];
                assert(fields_view(fs@) =~= seq![(field@, value)]);
                self.data.insert(owned(key), RedisValue::Hash(fs));
                assert(self.values().remove(key@) =~= m0.remove(key@));
            },
            Some(RedisValue::Hash(fs)) => {
                let mut fs = fs;
                let ghost before = fields_view(fs@);
                match find_field(&fs, field) {
                    Some(i) => {
                        fs.set(i, (owned(field), value));
                        assert(fields_view(fs@) =~= before.update(i as int, (field@, value)));
                    },
                    None => {
                        fs.push((owned(field), value));
                        assert(fields_view(fs@) =~= before.push((field@, value)));
                    },
                }
                self.data.insert(owned(key), RedisValue::Hash(fs));
                assert(self.values().remove(key@) =~= m0.remove(key@));
            },
            Some(other) => {
                self.data.insert(owned(key), other);
                assert(self.values() =~= m0);
            },
        }
        Ok(())
    }

    /// Copies of all fields of the hash under `key`, in order; none when there
    /// is no such hash.
    pub fn hgetall(&self, key: &str) -> (res: Result<Vec<(String, RedisValue)>, RedisError>)
        requires
            self.wf(),
        ensures
            match self.held(key@) {
                Some(RedisValue::Hash(fs)) => res matches Ok(out) && redis_same(RedisValue::Hash(fs), RedisValue::Hash(out)),
                _ => res matches Ok(out) && out@.len() == 0,
            },
    {
        match self.data.get(key) {
            Some(v) => match v {
                RedisValue::Hash(_) => match v.copy() {
                    RedisValue::Hash(out) => Ok(out),
                    _ => Ok(Vec::new()),
                },
                _ => Ok(Vec::new()),
            },
            None => Ok(Vec::new()),
        }
    }
}

/// The names of pairs, as characters, with their values.
pub open spec fn pair_values(ps: Seq<(&str, RedisValue)>) -> Seq<(Seq<char>, RedisValue)> {
    ps.map_values(|p: (&str, RedisValue)| (p.0@, p.1))
}

/// The map after inserting the pairs in turn.
pub open spec fn set_all(m: Map<Seq<char>, RedisValue>, ps: Seq<(Seq<char>, RedisValue)>) -> Map<Seq<char>, RedisValue>
    decreases ps.len(),
{
    if ps.len() == 0 {
        m
    } else {
        set_all(m, ps.drop_last()).insert(ps.last().0, ps.last().1)
    }
}

/// The names of fields, as characters, with their values.
pub open spec fn fields_view(fs: Seq<(String, RedisValue)>) -> Seq<(Seq<char>, RedisValue)> {
    fs.map_values(|p: (String, RedisValue)| (p.0@, p.1))
}

/// Where the first field named `f` is.
pub open spec fn field_index(fs: Seq<(Seq<char>, RedisValue)>, f: Seq<char>) -> Option<int>
    decreases fs.len(),
{
    if fs.len() == 0 {
        None
    } else if fs[0].0 == f {
        Some(0)
    } else {
        match field_index(fs.drop_first(), f) {
            Some(i) => Some(i + 1),
            None => None,
        }
    }
}

/// The value of the first field named `f`.
pub open spec fn hash_field(fs: Seq<(Seq<char>, RedisValue)>, f: Seq<char>) -> Option<RedisValue> {
    match field_index(fs, f) {
        Some(i) => Some(fs[i].1),
        None => None,
    }
}

/// The fields with field `f` set to `v`: in place when there is one, at the
/// end otherwise.
pub open spec fn with_field(fs: Seq<(Seq<char>, RedisValue)>, f: Seq<char>, v: RedisValue) -> Seq<(Seq<char>, RedisValue)> {
    match field_index(fs, f) {
        Some(i) => fs.update(i, (f, v)),
        None => fs.push((f, v)),
    }
}

proof fn lemma_field_index_bounds(fs: Seq<(Seq<char>, RedisValue)>, f: Seq<char>)
    ensures
        field_index(fs, f) matches Some(i) ==> 0 <= i < fs.len() && fs[i].0 == f,
    decreases fs.len(),
{
    if fs.len() > 0 && fs[0].0 != f {
        lemma_field_index_bounds(fs.drop_first(), f);
    }
}

/// Where the first field named `f` is.
fn find_field(fs: &Vec<(String, RedisValue)>, f: &str) -> (res: Option<usize>)
    ensures
        res matches Some(r) ==> field_index(fields_view(fs@), f@) == Some(r as int) && r < fs@.len(),
        res is None ==> field_index(fields_view(fs@), f@) is None,
{
    let mut i: usize = 0;
    proof {
        assert(fields_view(fs@).subrange(0, fs@.len() as int) =~= fields_view(fs@));
    }
    while i < fs.len()
        invariant
            i <= fs@.len(),
            field_index(fields_view(fs@), f@) == match field_index(fields_view(fs@).subrange(i as int, fs@.len() as int), f@) {
                Some(j) => Some(j + i),
                None => None,
            },
        decreases fs.len() - i,
    {
        let ghost rest = fields_view(fs@).subrange(i as int, fs@.len() as int);
        assert(rest.drop_first() =~= fields_view(fs@).subrange(i as int + 1, fs@.len() as int));
        assert(rest[0] == (fs@[i as int].0@, fs@[i as int].1));
        if crate::text::str_eq(fs[i].0.as_str(), f) {
            proof {
                lemma_field_index_bounds(fields_view(fs@), f@);
            }
            return Some(i);
        }
        i = i + 1;
    }
    proof {
        lemma_field_index_bounds(fields_view(fs@), f@);
    }
    None
}




/// The stretch `start..end` of a list of `len` items that `lrange` takes for
/// `start` and `stop` (negative ones count from the end, `stop` is inclusive);
/// nothing when it is empty.
pub open spec fn list_range(len: int, start: i64, stop: i64) -> Option<(int, int)> {
    let s: int = if start < 0 { if len + start > 0 { len + start } else { 0 } } else { start as int };
    let t: int = if stop < 0 { if len + stop > 0 { len + stop } else { 0 } } else { if (stop as int) < len - 1 { stop as int } else { len - 1 } };
    if len == 0 || s > t || s >= len {
        None
    } else {
        Some((s, t + 1))
    }
}

/// Whether a set (kept as a list) has `m` already: only strings are compared.
pub open spec fn set_has(a: Seq<RedisValue>, m: RedisValue) -> bool {
    m matches RedisValue::String(ms) && exists|i: int| 0 <= i < a.len()
        && (#[trigger] a[i] matches RedisValue::String(x) && x@ == ms@)
}

/// The command error for a key that holds the wrong kind of value.
pub open spec fn wrong_kind(res: Result<i64, RedisError>, what: Seq<char>) -> bool {
    res matches Err(RedisError::Command(m)) && m@ == what
}

/// Copies of `a[from..to]`.
fn copy_range(a: &Vec<RedisValue>, from: usize, to: usize) -> (res: Vec<RedisValue>)
    requires
        from <= to <= a@.len(),
    ensures
        res@.len() == to - from,
        forall|i: int| 0 <= i < res@.len() ==> redis_same(a@[from + i], #[trigger] res@[i]),
{
    let mut out: Vec<RedisValue> = Vec::new();
    let mut k: usize = from;
    while k < to
        invariant
            from <= k <= to <= a@.len(),
            out@.len() == k - from,
            forall|i: int| 0 <= i < out@.len() ==> redis_same(a@[from + i], #[trigger] out@[i]),
        decreases to - k,
    {
        out.push(a[k].copy());
        k = k + 1;
    }
    out
}

impl MockRedisClient {
    /// The list under `key` with `value` in front (a free key gets a new
    /// list); its new length. A key holding something else is refused.
    pub fn lpush(&mut self, key: &str, value: RedisValue) -> (res: Result<i64, RedisError>)
        requires
            old(self).wf(),
        ensures
            final(self).wf(),
            match old(self).held(key@) {
                None => {
                    &&& final(self).values().remove(key@) == old(self).values().remove(key@)
                    &&& final(self).values().dom().contains(key@)
                    &&& final(self).values()[key@] matches RedisValue::Array(na) && na@ == seq![value]
                    &&& res == Ok::<i64, RedisError>(1)
                },
                Some(RedisValue::Array(a)) => {
                    &&& final(self).values().remove(key@) == old(self).values().remove(key@)
                    &&& final(self).values().dom().contains(key@)
                    &&& final(self).values()[key@] matches RedisValue::Array(na) && na@ == seq![value] + a@
                    &&& res == Ok::<i64, RedisError>((a@.len() + 1) as i64)
                },
                Some(_) => final(self).values() == old(self).values() && wrong_kind(res, "Key is not a list"@),
            },
            final(self).expiries() == old(self).expiries(),
            final(self).metrics == old(self).metrics,
            final(self).same_setup(old(self)),
    {
        self.push_at(key, value, true)
    }

    /// The list under `key` with `value` at the end (a free key gets a new
    /// list); its new length. A key holding something else is refused.
    pub fn rpush(&mut self, key: &str, value: RedisValue) -> (res: Result<i64, RedisError>)
        requires
            old(self).wf(),
        ensures
            final(self).wf(),
            match old(self).held(key@) {
                None => {
                    &&& final(self).values().remove(key@) == old(self).values().remove(key@)
                    &&& final(self).values().dom().contains(key@)
                    &&& final(self).values()[key@] matches RedisValue::Array(na) && na@ == seq![value]
                    &&& res == Ok::<i64, RedisError>(1)
                },
                Some(RedisValue::Array(a)) => {
                    &&& final(self).values().remove(key@) == old(self).values().remove(key@)
                    &&& final(self).values().dom().contains(key@)
                    &&& final(self).values()[key@] matches RedisValue::Array(na) && na@ == a@.push(value)
                    &&& res == Ok::<i64, RedisError>((a@.len() + 1) as i64)
                },
                Some(_) => final(self).values() == old(self).values() && wrong_kind(res, "Key is not a list"@),
            },
            final(self).expiries() == old(self).expiries(),
            final(self).metrics == old(self).metrics,
            final(self).same_setup(old(self)),
    {
        self.push_at(key, value, false)
    }

    /// Push `value` onto the front (`front`) or the end of the list under `key`.
    fn push_at(&mut self, key: &str, value: RedisValue, front: bool) -> (res: Result<i64, RedisError>)
        requires
            old(self).wf(),
        ensures
            final(self).wf(),
            match old(self).held(key@) {
                None => {
                    &&& final(self).values().remove(key@) == old(self).values().remove(key@)
                    &&& final(self).values().dom().contains(key@)
                    &&& final(self).values()[key@] matches RedisValue::Array(na) && na@ == seq![value]
                    &&& res == Ok::<i64, RedisError>(1)
                },
                Some(RedisValue::Array(a)) => {
                    &&& final(self).values().remove(key@) == old(self).values().remove(key@)
                    &&& final(self).values().dom().contains(key@)
                    &&& final(self).values()[key@] matches RedisValue::Array(na)
                        && na@ == if front { seq![value] + a@ } else { a@.push(value) }
                    &&& res == Ok::<i64, RedisError>((a@.len() + 1) as i64)
                },
                Some(_) => final(self).values() == old(self).values() && wrong_kind(res, "Key is not a list"@),
            },
            final(self).expiries() == old(self).expiries(),
            final(self).metrics == old(self).metrics,
            final(self).same_setup(old(self)),
    {
        let ghost m0 = self.values();
        match self.data.remove(key) {
            None => {
                let a = vec![value];
                assert(a@ =~= seq![value]);
                self.data.insert(owned(key), RedisValue::Array(a));
                assert(self.values().remove(key@) =~= m0.remove(key@));
                Ok(1)
            },
            Some(RedisValue::Array(a)) => {
                let mut a = a;
                let ghost a0 = a@;
                if front {
                    a.insert(0, value);
                    assert(a@ =~= seq![value] + a0);
                } else {
                    a.push(value);
                }
                let n = a.len() as i64;
                self.data.insert(owned(key), RedisValue::Array(a));
                assert(self.values().remove(key@) =~= m0.remove(key@));
                Ok(n)
            },
            Some(other) => {
                self.data.insert(owned(key), other);
                assert(self.values() =~= m0);
                Err(RedisError::Command(String::from_str("Key is not a list")))
            },
        }
    }

    /// Take the first item of the list under `key`; nothing when there is no
    /// such list or it is empty.
    pub fn lpop(&mut self, key: &str) -> (res: Result<Option<RedisValue>, RedisError>)
        requires
            old(self).wf(),
        ensures
            final(self).wf(),
            match old(self).held(key@) {
                Some(RedisValue::Array(a)) if a@.len() > 0 => {
                    &&& final(self).values().remove(key@) == old(self).values().remove(key@)
                    &&& final(self).values().dom().contains(key@)
                    &&& final(self).values()[key@] matches RedisValue::Array(na) && na@ == a@.drop_first()
                    &&& res == Ok::<Option<RedisValue>, RedisError>(Some(a@[0]))
                },
                _ => final(self).values() == old(self).values() && res == Ok::<Option<RedisValue>, RedisError>(None),
            },
            final(self).expiries() == old(self).expiries(),
            final(self).metrics == old(self).metrics,
            final(self).same_setup(old(self)),
    {
        let ghost m0 = self.values();
        match self.data.remove(key) {
            None => {
                assert(self.values() =~= m0);
                Ok(None)
            },
            Some(RedisValue::Array(a)) => {
                let mut a = a;
                if a.len() == 0 {
                    self.data.insert(owned(key), RedisValue::Array(a));
                    assert(self.values() =~= m0);
                    Ok(None)
                } else {
                    let ghost a0 = a@;
                    let first = a.remove(0);
                    assert(a@ =~= a0.drop_first());
                    self.data.insert(owned(key), RedisValue::Array(a));
                    assert(self.values().remove(key@) =~= m0.remove(key@));
                    Ok(Some(first))
                }
            },
            Some(other) => {
                self.data.insert(owned(key), other);
                assert(self.values() =~= m0);
                Ok(None)
            },
        }
    }

    /// Copies of the items of the list under `key` from `start` to `stop`
    /// (see `list_range`); none when there is no such list.
    pub fn lrange(&self, key: &str, start: i64, stop: i64) -> (res: Result<Vec<RedisValue>, RedisError>)
        requires
            self.wf(),
        ensures
            match self.held(key@) {
                Some(RedisValue::Array(a)) => match list_range(a@.len() as int, start, stop) {
                    Some((s, e)) => res matches Ok(out) && out@.len() == e - s
                        && forall|i: int| 0 <= i < out@.len() ==> redis_same(a@[s + i], #[trigger] out@[i]),
                    None => res matches Ok(out) && out@.len() == 0,
                },
                _ => res matches Ok(out) && out@.len() == 0,
            },
    {
        match self.data.get(key) {
            Some(RedisValue::Array(a)) => {
                let len: i128 = a.len() as i128;
                let s: i128 = if start < 0 {
                    if len + (start as i128) > 0 { len + (start as i128) } else { 0 }
                } else {
                    start as i128
                };
                let t: i128 = if stop < 0 {
                    if len + (stop as i128) > 0 { len + (stop as i128) } else { 0 }
                } else {
                    if (stop as i128) < len - 1 { stop as i128 } else { len - 1 }
                };
                if len == 0 || s > t || s >= len {
                    Ok(Vec::new())
                } else {
                    Ok(copy_range(a, s as usize, (t + 1) as usize))
                }
            },
            _ => Ok(Vec::new()),
        }
    }

    /// Add `member` to the set (kept as a list) under `key` (a free key gets a
    /// new set); whether it was added. A string already there is not added
    /// again; a key holding something else is refused.
    pub fn sadd(&mut self, key: &str, member: RedisValue) -> (res: Result<bool, RedisError>)
        requires
            old(self).wf(),
        ensures
            final(self).wf(),
            match old(self).held(key@) {
                None => {
                    &&& final(self).values().remove(key@) == old(self).values().remove(key@)
                    &&& final(self).values().dom().contains(key@)
                    &&& final(self).values()[key@] matches RedisValue::Array(na) && na@ == seq![member]
                    &&& res == Ok::<bool, RedisError>(true)
                },
                Some(RedisValue::Array(a)) => if set_has(a@, member) {
                    final(self).values() == old(self).values() && res == Ok::<bool, RedisError>(false)
                } else {
                    &&& final(self).values().remove(key@) == old(self).values().remove(key@)
                    &&& final(self).values().dom().contains(key@)
                    &&& final(self).values()[key@] matches RedisValue::Array(na) && na@ == a@.push(member)
                    &&& res == Ok::<bool, RedisError>(true)
                },
                Some(_) => final(self).values() == old(self).values()
                    && (res matches Err(RedisError::Command(m)) && m@ == "Key is not a set"@),
            },
            final(self).expiries() == old(self).expiries(),
            final(self).metrics == old(self).metrics,
            final(self).same_setup(old(self)),
    {
        let ghost m0 = self.values();
        match self.data.remove(key) {
            None => {
                let a = vec![member];
                assert(a@ =~= seq![member]);
                self.data.insert(owned(key), RedisValue::Array(a));
                assert(self.values().remove(key@) =~= m0.remove(key@));
                Ok(true)
            },
            Some(RedisValue::Array(a)) => {
                let mut a = a;
                let mut found = false;
                let mut i: usize = 0;
                while i < a.len()
                    invariant
                        i <= a@.len(),
                        found ==> set_has(a@, member),
                        !found ==> forall|j: int| 0 <= j < i ==> !(member matches RedisValue::String(ms)
                            && (#[trigger] a@[j] matches RedisValue::String(x) && x@ == ms@)),
                    decreases a.len() - i,
                {
                    match (&a[i], &member) {
                        (RedisValue::String(x), RedisValue::String(m)) => {
                            if crate::text::str_eq(x.as_str(), m.as_str()) {
                                found = true;
                            }
                        },
                        _ => {},
                    }
                    i = i + 1;
                }
                if found {
                    self.data.insert(owned(key), RedisValue::Array(a));
                    assert(self.values() =~= m0);
                    Ok(false)
                } else {
                    a.push(member);
                    self.data.insert(owned(key), RedisValue::Array(a));
                    assert(self.values().remove(key@) =~= m0.remove(key@));
                    Ok(true)
                }
            },
            Some(other) => {
                self.data.insert(owned(key), other);
                assert(self.values() =~= m0);
                Err(RedisError::Command(String::from_str("Key is not a set")))
            },
        }
    }

    /// Copies of the members of the set (kept as a list) under `key`; none when
    /// there is no such set.
    pub fn smembers(&self, key: &str) -> (res: Result<Vec<RedisValue>, RedisError>)
        requires
            self.wf(),
        ensures
            match self.held(key@) {
                Some(RedisValue::Array(a)) => res matches Ok(out) && out@.len() == a@.len()
                    && forall|i: int| 0 <= i < out@.len() ==> redis_same(a@[i], #[trigger] out@[i]),
                _ => res matches Ok(out) && out@.len() == 0,
            },
    {
        match self.data.get(key) {
            Some(RedisValue::Array(a)) => {
                let out = copy_range(a, 0, a.len());
                proof {
                    assert forall|i: int| 0 <= i < out@.len() implies redis_same(a@[i], #[trigger] out@[i]) by {
                        assert(a@[0 + i] == a@[i]);
                    }
                }
                Ok(out)
            },
            _ => Ok(Vec::new()),
        }
    }
}

} // verus!
