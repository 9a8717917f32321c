//! The server's own logic: its configuration, its counters and latency
//! samples, the state of a graceful shutdown, and the steps of request
//! handling that decide rather than do I/O (reading the query string, refusing
//! an oversized body, turning a handler's response record into a response).
use vstd::prelude::*;
use crate::cluster::{ClusterConfig, elapsed_nanos, instant_now};
use crate::http::{JsonValue, Response, member};
use crate::router::pairs_map;
use crate::strmap::StrMap;
use crate::text::{
    all_digits, before_char, chars_of, digits_val, first_index_of, owned, parse_uint, replace_all,
    replace_str, split_char, split_str, string_of_range, views,
};
use crate::time::Duration;

verus! {

// ============================================================================
// Configuration
// ============================================================================

/// Server configuration.
pub struct ServerConfig {
    pub host: String,
    pub port: u16,
    /// Worker threads (0: one per CPU).
    pub workers: usize,
    pub backlog: u32,
    pub keep_alive: Option<Duration>,
    pub max_connections: usize,
    pub tcp_nodelay: bool,
    pub read_timeout: Option<Duration>,
    pub write_timeout: Option<Duration>,
    /// Largest request body in bytes (0: no limit).
    pub max_body_size: usize,
    pub read_header_timeout: Option<Duration>,
    pub read_body_timeout: Option<Duration>,
    pub handler_timeout: Option<Duration>,
    pub shutdown_timeout: Duration,
    pub cluster: Option<ClusterConfig>,
}

impl ServerConfig {
    /// The defaults besides the address.
    pub open spec fn defaults_besides_address(&self) -> bool {
        &&& self.workers == 0
        &&& self.backlog == 1024
        &&& self.keep_alive matches Some(d) && d.secs == 75 && d.nanos == 0
        &&& self.max_connections == 10000
        &&& self.tcp_nodelay
        &&& self.read_timeout matches Some(d) && d.secs == 30 && d.nanos == 0
        &&& self.write_timeout matches Some(d) && d.secs == 30 && d.nanos == 0
        &&& self.max_body_size == 100 * 1024 * 1024
        &&& self.read_header_timeout is None
        &&& self.read_body_timeout is None
        &&& self.handler_timeout is None
        &&& self.shutdown_timeout.secs == 30 && self.shutdown_timeout.nanos == 0
        &&& self.cluster is None
    }

    /// A configuration for `host:port`: automatic workers, backlog 1024,
    /// 75 s keep-alive, 10000 connections, `TCP_NODELAY`, 30 s read and write
    /// timeouts, 100 MiB bodies, 30 s to shut down.
    pub fn new(host: &str, port: u16) -> (res: Self)
        ensures
            res.host@ == host@,
            res.port == port,
            res.defaults_besides_address(),
    {
        ServerConfig {
            host: owned(host),
            port,
            workers: 0,
            backlog: 1024,
            keep_alive: Some(Duration::from_secs(75)),
            max_connections: 10000,
            tcp_nodelay: true,
            read_timeout: Some(Duration::from_secs(30)),
            write_timeout: Some(Duration::from_secs(30)),
            max_body_size: 100 * 1024 * 1024,
            read_header_timeout: None,
            read_body_timeout: None,
            handler_timeout: None,
            shutdown_timeout: Duration::from_secs(30),
            cluster: None,
        }
    }

    /// Set the number of worker threads.
    pub fn workers(self, n: usize) -> (res: Self)
        ensures
            res == (ServerConfig { workers: n, ..self }),
    {
        let mut c = self;
        c.workers = n;
        c
    }

    /// Set the keep-alive timeout.
    pub fn keep_alive(self, duration: Duration) -> (res: Self)
        ensures
            res == (ServerConfig { keep_alive: Some(duration), ..self }),
    {
        let mut c = self;
        c.keep_alive = Some(duration);
        c
    }

    /// Turn keep-alive off.
    pub fn no_keep_alive(self) -> (res: Self)
        ensures
            res == (ServerConfig { keep_alive: None, ..self }),
    {
        let mut c = self;
        c.keep_alive = None;
        c
    }

    /// Set the most concurrent connections.
    pub fn max_connections(self, max: usize) -> (res: Self)
        ensures
            res == (ServerConfig { max_connections: max, ..self }),
    {
        let mut c = self;
        c.max_connections = max;
        c
    }

    /// Run as a cluster.
    pub fn cluster(self, config: ClusterConfig) -> (res: Self)
        ensures
            res == (ServerConfig { cluster: Some(config), ..self }),
    {
        let mut c = self;
        c.cluster = Some(config);
        c
    }

    /// Set the time allowed for a graceful shutdown.
    pub fn shutdown_timeout(self, duration: Duration) -> (res: Self)
        ensures
            res == (ServerConfig { shutdown_timeout: duration, ..self }),
    {
        let mut c = self;
        c.shutdown_timeout = duration;
        c
    }
}

impl Default for ServerConfig {
    fn default() -> (res: Self)
        ensures
            res.host@ == "127.0.0.1"@,
            res.port == 8000,
            res.defaults_besides_address(),
    {
        ServerConfig::new("127.0.0.1", 8000)
    }
}

// ============================================================================
// Metrics
// ============================================================================

/// The most latency samples kept.
pub const MAX_LATENCY_SAMPLES: usize = 1000;

/// The total length of a list of durations, in nanoseconds.
pub open spec fn total_nanos(ds: Seq<Duration>) -> nat
    decreases ds.len(),
{
    if ds.len() == 0 {
        0
    } else {
        total_nanos(ds.drop_last()) + ds.last().total_nanos()
    }
}

/// The largest total, in nanoseconds, that a `Duration` can hold.
pub open spec fn duration_limit() -> nat {
    (u64::MAX as nat + 1) * 1_000_000_000
}

/// Server counters. Each counter wraps around, as an atomic counter does.
pub struct ServerMetrics {
    pub total_requests: u64,
    pub active_connections: u64,
    pub bytes_received: u64,
    pub bytes_sent: u64,
    pub total_errors: u64,
    pub start_time: std::time::Instant,
    /// Sampled request latencies, oldest first.
    pub latencies: Vec<Duration>,
}

impl ServerMetrics {
    /// At most the cap of samples, each a valid duration.
    pub open spec fn wf(&self) -> bool {
        &&& self.latencies@.len() <= MAX_LATENCY_SAMPLES
        &&& forall|i: int| 0 <= i < self.latencies@.len() ==> (#[trigger] self.latencies@[i]).wf()
    }

    /// Zeroed counters, no samples, started now.
    pub fn new() -> (res: Self)
        ensures
            res.wf(),
            res.total_requests == 0 && res.active_connections == 0,
            res.bytes_received == 0 && res.bytes_sent == 0 && res.total_errors == 0,
            res.latencies@.len() == 0,
    {
        ServerMetrics {
            total_requests: 0,
            active_connections: 0,
            bytes_received: 0,
            bytes_sent: 0,
            total_errors: 0,
            start_time: instant_now(),
            latencies: Vec::new(),
        }
    }

    /// Count a request.
    pub fn inc_requests(&mut self)
        ensures
            *final(self) == (ServerMetrics { total_requests: old(self).total_requests.wrapping_add(1), ..*old(self) }),
    {
        self.total_requests = self.total_requests.wrapping_add(1);
    }

    /// Count an open connection.
    pub fn inc_connections(&mut self)
        ensures
            *final(self) == (ServerMetrics { active_connections: old(self).active_connections.wrapping_add(1), ..*old(self) }),
    {
        self.active_connections = self.active_connections.wrapping_add(1);
    }

    /// Count a closed connection.
    pub fn dec_connections(&mut self)
        ensures
            *final(self) == (ServerMetrics { active_connections: old(self).active_connections.wrapping_sub(1), ..*old(self) }),
    {
        self.active_connections = self.active_connections.wrapping_sub(1);
    }

    /// Add received bytes.
    pub fn add_bytes_received(&mut self, bytes: u64)
        ensures
            *final(self) == (ServerMetrics { bytes_received: old(self).bytes_received.wrapping_add(bytes), ..*old(self) }),
    {
        self.bytes_received = self.bytes_received.wrapping_add(bytes);
    }

    /// Add sent bytes.
    pub fn add_bytes_sent(&mut self, bytes: u64)
        ensures
            *final(self) == (ServerMetrics { bytes_sent: old(self).bytes_sent.wrapping_add(bytes), ..*old(self) }),
    {
        self.bytes_sent = self.bytes_sent.wrapping_add(bytes);
    }

    /// Count an error.
    pub fn inc_errors(&mut self)
        ensures
            *final(self) == (ServerMetrics { total_errors: old(self).total_errors.wrapping_add(1), ..*old(self) }),
    {
        self.total_errors = self.total_errors.wrapping_add(1);
    }

    /// Keep a latency sample, one request in 64 (when the request count is a
    /// multiple of 64); beyond the cap the oldest sample goes.
    pub fn record_latency(&mut self, latency: Duration)
        requires
            old(self).wf(),
            latency.wf(),
        ensures
            final(self).wf(),
            final(self).total_requests == old(self).total_requests,
            old(self).total_requests % 64 != 0 ==> final(self).latencies@ == old(self).latencies@,
            old(self).total_requests % 64 == 0 ==> final(self).latencies@ == if old(self).latencies@.len() < MAX_LATENCY_SAMPLES {
                old(self).latencies@.push(latency)
            } else {
                old(self).latencies@.push(latency).drop_first()
            },
    {
        let t = self.total_requests;
        assert(t & 63 == t % 64) by (bit_vector);
        if t & 63 == 0 {
            self.latencies.push(latency);
            if self.latencies.len() > MAX_LATENCY_SAMPLES {
                self.latencies.remove(0);
                assert(self.latencies@ =~= old(self).latencies@.push(latency).drop_first());
            }
        }
    }

    /// The mean of the latency samples, rounded down to the nanosecond; zero
    /// without samples.
    pub fn avg_latency(&self) -> (res: Duration)
        requires
            self.wf(),
            total_nanos(self.latencies@) < duration_limit(),
        ensures
            res.wf(),
            self.latencies@.len() == 0 ==> res.total_nanos() == 0,
            self.latencies@.len() > 0 ==> res.total_nanos() == total_nanos(self.latencies@) / self.latencies@.len() as nat,
    {
        let n = self.latencies.len();
        if n == 0 {
            return Duration::from_secs(0);
        }
        let mut sum: u128 = 0;
        let mut i: usize = 0;
        while i < n
            invariant
                n == self.latencies@.len(),
                i <= n,
                self.wf(),
                total_nanos(self.latencies@) < duration_limit(),
                sum as nat == total_nanos(self.latencies@.subrange(0, i as int)),
            decreases n - i,
        {
            proof {
                lemma_total_prefix(self.latencies@, i as int + 1);
                assert(self.latencies@.subrange(0, i as int + 1).drop_last() =~= self.latencies@.subrange(0, i as int));
            }
            let d = &self.latencies[i];
            sum = sum + (d.secs as u128) * 1_000_000_000 + d.nanos as u128;
            i = i + 1;
        }
        assert(self.latencies@.subrange(0, n as int) =~= self.latencies@);
        let avg = sum / (n as u128);
        proof {
            assert(avg <= sum) by (nonlinear_arith) requires n >= 1, avg == sum / (n as u128);
        }
        let secs = (avg / 1_000_000_000) as u64;
        let nanos = (avg % 1_000_000_000) as u32;
        assert(avg as nat == (avg / 1_000_000_000) as nat * 1_000_000_000 + (avg % 1_000_000_000) as nat) by (nonlinear_arith);
        Duration { secs, nanos }
    }

    /// How long the server has run.
    pub fn uptime(&self) -> (res: Duration)
        ensures
            res.wf(),
    {
        let ns = elapsed_nanos(&self.start_time);
        let secs = (ns / 1_000_000_000) as u64;
        let nanos = (ns % 1_000_000_000) as u32;
        Duration { secs, nanos }
    }
}

/// The total of a prefix grows by the next sample.
proof fn lemma_total_prefix(ds: Seq<Duration>, k: int)
    requires
        1 <= k <= ds.len(),
    ensures
        total_nanos(ds.subrange(0, k)) == total_nanos(ds.subrange(0, k - 1)) + ds[k - 1].total_nanos(),
        total_nanos(ds.subrange(0, k)) <= total_nanos(ds),
    decreases ds.len() - k,
{
    assert(ds.subrange(0, k).drop_last() =~= ds.subrange(0, k - 1));
    if k < ds.len() {
        lemma_total_prefix(ds, k + 1);
    } else {
        assert(ds.subrange(0, k) =~= ds);
    }
}

// ============================================================================
// Graceful shutdown
// ============================================================================

/// The state of a graceful shutdown: whether it has begun and how many
/// requests are still being served (the count wraps, as an atomic one does).
pub struct ShutdownCoordinator {
    pub shutdown_initiated: bool,
    pub active_requests: u64,
    pub drain_timeout: Duration,
}

/// What draining does next.
pub enum DrainStep {
    /// No request is left.
    Done,
    /// Requests are left and there is time: wait a little and look again.
    Wait,
    /// Requests are left and the time is up: stop waiting.
    GiveUp,
}

impl ShutdownCoordinator {
    /// Not shutting down, no requests, with the time allowed for draining.
    pub fn new(drain_timeout: Duration) -> (res: Self)
        ensures
            !res.shutdown_initiated,
            res.active_requests == 0,
            res.drain_timeout == drain_timeout,
    {
        ShutdownCoordinator { shutdown_initiated: false, active_requests: 0, drain_timeout }
    }

    /// Begin shutting down.
    pub fn shutdown(&mut self)
        ensures
            *final(self) == (ShutdownCoordinator { shutdown_initiated: true, ..*old(self) }),
    {
        self.shutdown_initiated = true;
    }

    /// Whether shutting down has begun.
    pub fn is_shutting_down(&self) -> (res: bool)
        ensures
            res == self.shutdown_initiated,
    {
        self.shutdown_initiated
    }

    /// A request began.
    pub fn request_started(&mut self)
        ensures
            *final(self) == (ShutdownCoordinator { active_requests: old(self).active_requests.wrapping_add(1), ..*old(self) }),
    {
        self.active_requests = self.active_requests.wrapping_add(1);
    }

    /// A request ended.
    pub fn request_finished(&mut self)
        ensures
            *final(self) == (ShutdownCoordinator { active_requests: old(self).active_requests.wrapping_sub(1), ..*old(self) }),
    {
        self.active_requests = self.active_requests.wrapping_sub(1);
    }

    /// How many requests are being served.
    pub fn active_requests(&self) -> (res: u64)
        ensures
            res == self.active_requests,
    {
        self.active_requests
    }

    /// The next step of draining, `elapsed` after it began.
    pub fn drain_step(&self, elapsed: Duration) -> (res: DrainStep)
        requires
            elapsed.wf(),
            self.drain_timeout.wf(),
        ensures
            self.active_requests == 0 ==> res is Done,
            self.active_requests > 0 && elapsed.total_nanos() > self.drain_timeout.total_nanos() ==> res is GiveUp,
            self.active_requests > 0 && elapsed.total_nanos() <= self.drain_timeout.total_nanos() ==> res is Wait,
    {
        if self.active_requests == 0 {
            return DrainStep::Done;
        }
        let later = elapsed.secs > self.drain_timeout.secs
            || (elapsed.secs == self.drain_timeout.secs && elapsed.nanos > self.drain_timeout.nanos);
        proof {
            let a = elapsed.secs as nat;
            let b = self.drain_timeout.secs as nat;
            let x = elapsed.nanos as nat;
            let y = self.drain_timeout.nanos as nat;
            if elapsed.secs > self.drain_timeout.secs && x < 1_000_000_000 + y {
                assert(a * 1_000_000_000 >= b * 1_000_000_000 + 1_000_000_000) by (nonlinear_arith) requires a >= b + 1;
            }
            if elapsed.secs < self.drain_timeout.secs {
                assert(b * 1_000_000_000 >= a * 1_000_000_000 + 1_000_000_000) by (nonlinear_arith) requires b >= a + 1;
            }
        }
        if later {
            DrainStep::GiveUp
        } else {
            DrainStep::Wait
        }
    }
}

// ============================================================================
// Steps of request handling
// ============================================================================

/// A form-encoded query component decoded: `+` is a space and the rest is
/// percent-decoded; what does not decode to UTF-8 becomes empty.
pub open spec fn form_decode(raw: Seq<char>) -> Seq<char> {
    match crate::static_files::percent_decode(replace_all(raw, "+"@, " "@)) {
        Some(d) => d,
        None => Seq::empty(),
    }
}

/// The value part of a `key=value` pair: after the first `=`, or empty.
pub open spec fn pair_value(p: Seq<char>) -> Seq<char> {
    match first_index_of(p, '=') {
        Some(i) => p.subrange(i + 1, p.len() as int),
        None => Seq::empty(),
    }
}

/// The decoded pairs of the non-empty `&`-separated pieces, in order.
pub open spec fn query_pairs(pieces: Seq<Seq<char>>) -> Seq<(Seq<char>, Seq<char>)>
    decreases pieces.len(),
{
    if pieces.len() == 0 {
        Seq::empty()
    } else {
        let rest = query_pairs(pieces.drop_last());
        let p = pieces.last();
        if p.len() == 0 {
            rest
        } else {
            rest.push((form_decode(before_char(p, '=')), form_decode(pair_value(p))))
        }
    }
}

/// Decode one form-encoded component.
fn decode_component(raw: &str) -> (res: String)
    ensures
        res@ == form_decode(raw@),
{
    proof {
        reveal_strlit("+");
    }
    let spaced = replace_str(raw, "+", " ");
    match crate::static_files::url_decode(spaced.as_str()) {
        Some(d) => d,
        None => String::new(),
    }
}

/// The parameters of a query string: `&`-separated `key=value` pairs, form
/// decoded, empty pieces skipped, a later key replacing an earlier one.
pub fn parse_query(query: &str) -> (res: StrMap<String>)
    ensures
        res.wf(),
        res.to_map().map_values(|v: String| v@) == pairs_map(query_pairs(split_char(query@, '&'))),
{
    let pieces = split_str(query, '&');
    let ghost ps = views(pieces@);
    let mut out: StrMap<String> = StrMap::new();
    let mut i: usize = 0;
    assert(out.to_map().map_values(|v: String| v@) =~= pairs_map(query_pairs(ps.subrange(0, 0))));
    while i < pieces.len()
        invariant
            i <= pieces@.len(),
            ps == views(pieces@),
            out.wf(),
            out.to_map().map_values(|v: String| v@) == pairs_map(query_pairs(ps.subrange(0, i as int))),
        decreases pieces.len() - i,
    {
        let ghost next = ps.subrange(0, i as int + 1);
        assert(next.drop_last() =~= ps.subrange(0, i as int));
        assert(next.last() == pieces@[i as int]@);
        let p = pieces[i].as_str();
        if p.unicode_len() > 0 {
            let v = chars_of(p);
            let (k, val) = match crate::text::find_char(&v, '=') {
                Some(e) => {
                    proof {
                        crate::text::lemma_first_index_bounds(v@, '=');
                    }
                    (string_of_range(&v, 0, e), string_of_range(&v, e + 1, v.len()))
                },
                None => {
                    assert(v@.subrange(0, v@.len() as int) =~= v@);
                    (string_of_range(&v, 0, v.len()), String::new())
                },
            };
            assert(k@ == before_char(p@, '='));
            assert(val@ == pair_value(p@));
            let dk = decode_component(k.as_str());
            let dv = decode_component(val.as_str());
            let ghost before = out.to_map().map_values(|v: String| v@);
            out.insert(dk, dv);
            assert(query_pairs(next) == query_pairs(ps.subrange(0, i as int)).push((dk@, dv@)));
            assert(query_pairs(next).drop_last() =~= query_pairs(ps.subrange(0, i as int)));
            assert(out.to_map().map_values(|v: String| v@) =~= before.insert(dk@, dv@));
        } else {
            assert(query_pairs(next) == query_pairs(ps.subrange(0, i as int)));
        }
        i = i + 1;
    }
    assert(ps.subrange(0, ps.len() as int) =~= ps);
    out
}

/// The value under `key` in a map of strings.
pub open spec fn header_of(m: StrMap<String>, key: Seq<char>) -> Option<Seq<char>> {
    if m.to_map().dom().contains(key) {
        Some(m.to_map()[key]@)
    } else {
        None
    }
}

/// Whether a request declares (in `content-length`) a body larger than the
/// limit; a limit of 0 is no limit, and an unreadable length is not checked.
pub open spec fn declared_too_large(headers: StrMap<String>, max_body_size: usize) -> bool {
    max_body_size > 0 && match header_of(headers, "content-length"@) {
        Some(v) => match parse_uint(v, usize::MAX as nat) {
            Some(n) => n > max_body_size,
            None => false,
        },
        None => false,
    }
}

/// Whether the declared body length is over the limit.
pub fn body_too_large(headers: &StrMap<String>, max_body_size: usize) -> (res: bool)
    requires
        headers.wf(),
    ensures
        res == declared_too_large(*headers, max_body_size),
{
    if max_body_size == 0 {
        return false;
    }
    match headers.get("content-length") {
        Some(v) => match crate::text::parse_usize(v.as_str()) {
            Some(n) => n > max_body_size,
            None => false,
        },
        None => false,
    }
}

/// The most bytes of body to read: the limit, or no limit for 0.
pub fn body_read_limit(max_body_size: usize) -> (res: usize)
    ensures
        res == if max_body_size == 0 { usize::MAX } else { max_body_size },
{
    if max_body_size == 0 {
        usize::MAX
    } else {
        max_body_size
    }
}

/// A JSON number's value when it is an unsigned integer that fits in 64 bits.
pub open spec fn json_u64(v: JsonValue) -> Option<u64> {
    match v {
        JsonValue::Number(t) => if t@.len() > 0 && all_digits(t@) && digits_val(t@) <= u64::MAX as nat {
            Some(digits_val(t@) as u64)
        } else {
            None
        },
        _ => None,
    }
}

/// The headers of a response record that are strings, applied in turn.
pub open spec fn record_headers(fields: Seq<(String, JsonValue)>) -> Map<Seq<char>, Seq<char>>
    decreases fields.len(),
{
    if fields.len() == 0 {
        Map::empty()
    } else {
        let rest = record_headers(fields.drop_last());
        match fields.last().1 {
            JsonValue::Str(s) => rest.insert(fields.last().0@, crate::http::strip_ctl(s@)),
            _ => rest,
        }
    }
}

/// Whether a handler's value is a response record: an object whose
/// `__cello_response__` member is `true`.
pub open spec fn is_response_record(v: JsonValue) -> bool {
    v.field("__cello_response__"@) == Some(JsonValue::Bool(true))
}

/// A JSON number's text read as an unsigned integer.
pub(crate) fn number_u64(t: &String) -> (res: Option<u64>)
    ensures
        res == json_u64(JsonValue::Number(*t)),
{
    let v = chars_of(t.as_str());
    if v.len() == 0 || v[0] == '+' {
        proof {
            if v@.len() > 0 {
                assert(!crate::text::is_digit(v@[0]));
            }
        }
        return None;
    }
    assert(v@.subrange(0, v@.len() as int) =~= v@);
    crate::text::parse_uint_range(&v, 0, v.len(), u64::MAX)
}

/// The response a handler's value stands for, when it is a response record:
/// the status (200 when missing or not a number; the low 16 bits are kept),
/// the body text (empty when missing or not a string) and the string-valued
/// headers. Any other value is answered as JSON by the caller.
pub fn response_from_record(value: &JsonValue) -> (res: Option<Response>)
    ensures
        !is_response_record(*value) ==> res is None,
        is_response_record(*value) ==> (res matches Some(r) && {
            &&& r.wf()
            &&& r.status == match value.field("status"@) {
                Some(s) => match json_u64(s) {
                    Some(n) => n as u16,
                    None => 200u16,
                },
                None => 200u16,
            }
            &&& r.body@ == vstd::utf8::encode_utf8(match value.field("body"@) {
                Some(JsonValue::Str(b)) => b@,
                _ => Seq::<char>::empty(),
            })
            &&& r.header_map() == match value.field("headers"@) {
                Some(JsonValue::Object(h)) => record_headers(h@),
                _ => Map::<Seq<char>, Seq<char>>::empty(),
            }
            &&& r.body_type is Bytes
        }),
{
    match value.get("__cello_response__") {
        Some(JsonValue::Bool(true)) => {},
        _ => return None,
    }
    let status: u16 = match value.get("status") {
        Some(JsonValue::Number(t)) => match number_u64(t) {
            Some(n) => n as u16,
            None => 200,
        },
        _ => 200,
    };
    let body: &str = match value.get("body") {
        Some(JsonValue::Str(b)) => b.as_str(),
        _ => "",
    };
    proof {
        reveal_strlit("");
    }
    let mut resp = Response::new(status);
    resp.set_body(vstd::slice::slice_to_vec(body.as_bytes()));
    match value.get("headers") {
        Some(JsonValue::Object(fields)) => {
            let mut i: usize = 0;
            assert(resp.header_map() =~= record_headers(fields@.subrange(0, 0)));
            while i < fields.len()
                invariant
                    i <= fields@.len(),
                    resp.wf(),
                    resp.status == status,
                    resp.body_type is Bytes,
                    resp.body@ == vstd::utf8::encode_utf8(body@),
                    resp.header_map() == record_headers(fields@.subrange(0, i as int)),
                decreases fields.len() - i,
            {
                assert(fields@.subrange(0, i as int + 1).drop_last() =~= fields@.subrange(0, i as int));
                match &fields[i].1 {
                    JsonValue::Str(s) => {
                        resp.set_header(fields[i].0.as_str(), s.as_str());
                    },
                    _ => {},
                }
                i = i + 1;
            }
            assert(fields@.subrange(0, fields@.len() as int) =~= fields@);
        },
        _ => {},
    }
    Some(resp)
}

// ============================================================================
// Request dispatch
// ============================================================================

/// The stages of handling a routed request, in order.
#[derive(Clone, Copy, Debug, PartialEq, Eq, Structural)]
pub enum Phase {
    /// The synchronous middleware before the handler.
    Before,
    /// The asynchronous middleware before the handler.
    AsyncBefore,
    /// The metrics middleware before the handler.
    PrometheusBefore,
    /// The guards.
    Guards,
    /// The handler.
    Handler,
    /// The asynchronous middleware after the handler.
    AsyncAfter,
    /// The synchronous middleware after the handler.
    After,
    /// The metrics middleware after the handler.
    PrometheusAfter,
}

/// Which optional stages are present.
#[derive(Clone, Copy, Debug, PartialEq, Eq, Structural)]
pub struct Pipeline {
    pub has_middleware: bool,
    pub has_async_middleware: bool,
    pub has_prometheus: bool,
    pub has_guards: bool,
}

/// What a middleware stage answered.
pub enum StageResult {
    Continue,
    Stop(Response),
    /// An error with its status and message.
    Fail(u16, String),
}

/// What the server does next.
pub enum DispatchStep {
    /// Run this stage.
    Run(Phase),
    /// Send this response (and count an error when `error`).
    Respond { response: Response, error: bool },
    /// Send the handler's response as the stages left it.
    Finish,
}

/// Whether a stage runs at all.
pub open spec fn present(p: Pipeline, ph: Phase) -> bool {
    match ph {
        Phase::Before | Phase::After => p.has_middleware,
        Phase::AsyncBefore | Phase::AsyncAfter => p.has_async_middleware,
        Phase::PrometheusBefore | Phase::PrometheusAfter => p.has_prometheus,
        Phase::Guards => p.has_guards,
        Phase::Handler => true,
    }
}

/// The position of a stage in the order of handling.
pub open spec fn rank(ph: Phase) -> int {
    match ph {
        Phase::Before => 0,
        Phase::AsyncBefore => 1,
        Phase::PrometheusBefore => 2,
        Phase::Guards => 3,
        Phase::Handler => 4,
        Phase::AsyncAfter => 5,
        Phase::After => 6,
        Phase::PrometheusAfter => 7,
    }
}

/// The stage at a position.
pub open spec fn phase_at(r: int) -> Phase {
    if r == 0 { Phase::Before }
    else if r == 1 { Phase::AsyncBefore }
    else if r == 2 { Phase::PrometheusBefore }
    else if r == 3 { Phase::Guards }
    else if r == 4 { Phase::Handler }
    else if r == 5 { Phase::AsyncAfter }
    else if r == 6 { Phase::After }
    else { Phase::PrometheusAfter }
}

/// The first present stage after position `r`, if any.
pub open spec fn next_present(p: Pipeline, r: int) -> Option<Phase>
    decreases 8 - r,
{
    if r >= 7 {
        None
    } else if present(p, phase_at(r + 1)) {
        Some(phase_at(r + 1))
    } else {
        next_present(p, r + 1)
    }
}

/// The stage at a position, as code.
fn phase_at_exec(r: u8) -> (res: Phase)
    requires
        r < 8,
    ensures
        res == phase_at(r as int),
{
    if r == 0 { Phase::Before }
    else if r == 1 { Phase::AsyncBefore }
    else if r == 2 { Phase::PrometheusBefore }
    else if r == 3 { Phase::Guards }
    else if r == 4 { Phase::Handler }
    else if r == 5 { Phase::AsyncAfter }
    else if r == 6 { Phase::After }
    else { Phase::PrometheusAfter }
}

impl Pipeline {
    /// Whether a stage runs.
    pub fn runs(&self, ph: Phase) -> (res: bool)
        ensures
            res == present(*self, ph),
    {
        match ph {
            Phase::Before | Phase::After => self.has_middleware,
            Phase::AsyncBefore | Phase::AsyncAfter => self.has_async_middleware,
            Phase::PrometheusBefore | Phase::PrometheusAfter => self.has_prometheus,
            Phase::Guards => self.has_guards,
            Phase::Handler => true,
        }
    }

    /// The first present stage after position `r`.
    fn after_rank(&self, r: u8) -> (res: Option<Phase>)
        requires
            r < 8,
        ensures
            res == next_present(*self, r as int),
    {
        let mut k: u8 = r;
        while k < 7
            invariant
                r <= k <= 7,
                next_present(*self, r as int) == next_present(*self, k as int),
            decreases 7 - k,
        {
            let ph = phase_at_exec(k + 1);
            if self.runs(ph) {
                return Some(ph);
            }
            k = k + 1;
        }
        None
    }

    /// The first stage to run for a routed request.
    pub fn first_phase(&self) -> (res: Phase)
        ensures
            res == (if present(*self, Phase::Before) { Phase::Before } else { next_present(*self, 0)->0 }),
    {
        if self.has_middleware {
            return Phase::Before;
        }
        proof {
            assert(present(*self, phase_at(4)));
            assert(next_present(*self, 3) == Some(Phase::Handler));
            assert(next_present(*self, 2) is Some);
            assert(next_present(*self, 1) is Some);
            assert(next_present(*self, 0) is Some);
        }
        match self.after_rank(0) {
            Some(ph) => ph,
            None => Phase::Handler,
        }
    }
}

/// The response for an error a stage reports.
fn stage_error(status: u16, message: &str) -> (res: Response)
    ensures
        res.wf(),
        res.status == status,
        res.body@ == crate::http::error_json_of(message@, status),
{
    Response::error(status, message)
}

/// What follows a stage other than the handler: a stop answers with its
/// response, an error with a JSON error response (counted as an error), and
/// going on runs the next present stage, or finishes after the last.
pub fn after_phase(p: &Pipeline, phase: Phase, result: StageResult) -> (res: DispatchStep)
    requires
        phase != Phase::Handler,
    ensures
        match result {
            StageResult::Stop(r) => res matches DispatchStep::Respond { response, error } && response == r && !error,
            StageResult::Fail(status, m) => res matches DispatchStep::Respond { response, error } && error
                && response.status == status && response.body@ == crate::http::error_json_of(m@, status),
            StageResult::Continue => match next_present(*p, rank(phase)) {
                Some(n) => res == DispatchStep::Run(n),
                None => res is Finish,
            },
        },
{
    match result {
        StageResult::Stop(r) => DispatchStep::Respond { response: r, error: false },
        StageResult::Fail(status, m) => DispatchStep::Respond { response: stage_error(status, m.as_str()), error: true },
        StageResult::Continue => {
            let r: u8 = match phase {
                Phase::Before => 0,
                Phase::AsyncBefore => 1,
                Phase::PrometheusBefore => 2,
                Phase::Guards => 3,
                Phase::Handler => 4,
                Phase::AsyncAfter => 5,
                Phase::After => 6,
                Phase::PrometheusAfter => 7,
            };
            match p.after_rank(r) {
                Some(n) => DispatchStep::Run(n),
                None => DispatchStep::Finish,
            }
        },
    }
}

/// The answer to a request that no route matches: the metrics page when it
/// is the metrics path, else what the middleware that claims the path
/// answered, else 404 `Not Found: <method> <path>`.
pub fn unrouted_response(method: &str, path: &str, metrics_page: Option<Response>, claimed: Option<Response>) -> (res: Response)
    ensures
        match (metrics_page, claimed) {
            (Some(m), _) => res == m,
            (None, Some(c)) => res == c,
            (None, None) => res.status == 404
                && res.body@ == crate::http::error_json_of("Not Found: "@ + method@ + " "@ + path@, 404),
        },
{
    match metrics_page {
        Some(m) => m,
        None => match claimed {
            Some(c) => c,
            None => {
                let mut msg = String::from_str("Not Found: ");
                msg.append(method);
                msg.append(" ");
                msg.append(path);
                Response::not_found(msg.as_str())
            },
        },
    }
}

/// Why reading a body failed.
#[derive(Clone, Copy, Debug, PartialEq, Eq, Structural)]
pub enum BodyFailure {
    /// The read took too long.
    TimedOut,
    /// The body was over the limit, or could not be read.
    TooLarge,
}

/// The answer to a failed body read: 408 or 413.
pub fn body_failure_response(failure: BodyFailure) -> (res: Response)
    ensures
        match failure {
            BodyFailure::TimedOut => res.status == 408
                && res.body@ == crate::http::error_json_of("Request Timeout: body read timed out"@, 408),
            BodyFailure::TooLarge => res.status == 413
                && res.body@ == crate::http::error_json_of("Payload Too Large: request body exceeds limit"@, 413),
        },
{
    match failure {
        BodyFailure::TimedOut => Response::error(408, "Request Timeout: body read timed out"),
        BodyFailure::TooLarge => Response::error(413, "Payload Too Large: request body exceeds limit"),
    }
}

/// The answer when the handler runs out of time: 504.
pub fn handler_timeout_response() -> (res: Response)
    ensures
        res.status == 504,
        res.body@ == crate::http::error_json_of("Gateway Timeout: handler exceeded time limit"@, 504),
{
    Response::error(504, "Gateway Timeout: handler exceeded time limit")
}

/// Stages run in order and none is skipped past the handler: from any stage
/// before the handler, going on leads to a present stage no later than the
/// handler.
pub proof fn lemma_handler_always_reached(p: Pipeline, r: int)
    requires
        0 <= r < 4,
    ensures
        next_present(p, r) matches Some(n) && r < rank(n) <= 4 && present(p, n),
    decreases 4 - r,
{
    if r < 3 && !present(p, phase_at(r + 1)) {
        lemma_handler_always_reached(p, r + 1);
    }
}

} // verus!
