//! Distributed tracing: W3C trace context (`traceparent`) and request counters.
use vstd::prelude::*;
use vstd::string::*;
use crate::random::{hex_encode, hex_of, lemma_hex_len, random_bytes};
use crate::request_id::{is_uuid_v4, uuid_text, uuid_v4_bytes};
use crate::strmap::StrMap;
use crate::text::{chars_of, owned, push_char, split_char, split_str, str_eq, views};
use crate::http::{JsonValue, MiddlewareAction, Request, Response, strip_ctl};
use crate::pathmatch::skip_match;

verus! {

/// `uuid::Uuid::new_v4().to_string()`: a random version-4 UUID in its
/// lowercase hyphenated form, as the crate documents (16 random bytes with the
/// version and variant bits set).
#[verifier::external_body]
fn uuid_v4_string() -> (res: String)
    ensures
        is_uuid_v4(res@),
{
    uuid::Uuid::new_v4().to_string()
}

/// `s` without its `-` characters.
pub open spec fn without_hyphens(s: Seq<char>) -> Seq<char>
    decreases s.len(),
{
    if s.len() == 0 {
        s
    } else if s.last() == '-' {
        without_hyphens(s.drop_last())
    } else {
        without_hyphens(s.drop_last()).push(s.last())
    }
}

/// `s` with every `-` removed.
fn remove_hyphens(s: &str) -> (res: String)
    ensures
        res@ == without_hyphens(s@),
{
    let v = chars_of(s);
    let mut out = String::new();
    let mut i: usize = 0;
    while i < v.len()
        invariant
            v@ == s@,
            i <= v@.len(),
            out@ == without_hyphens(v@.subrange(0, i as int)),
        decreases v.len() - i,
    {
        assert(v@.subrange(0, i as int + 1).drop_last() =~= v@.subrange(0, i as int));
        if v[i] != '-' {
            push_char(&mut out, v[i]);
        }
        i = i + 1;
    }
    assert(v@.subrange(0, v@.len() as int) =~= v@);
    out
}

/// A new trace id: a random UUID v4 without its hyphens.
pub fn generate_trace_id() -> (res: String)
    ensures
        exists|b: Seq<u8>| b.len() == 16 && res@ == without_hyphens(uuid_text(uuid_v4_bytes(b))),
{
    let u = uuid_v4_string();
    remove_hyphens(u.as_str())
}

/// A new span id: eight random bytes in lowercase hex.
pub fn generate_span_id() -> (res: String)
    ensures
        exists|b: Seq<u8>| b.len() == 8 && res@ == hex_of(b),
        res@.len() == 16,
{
    let bytes = random_bytes(8);
    proof {
        lemma_hex_len(bytes@);
    }
    hex_encode(bytes.as_slice())
}

/// Trace context for propagation.
pub struct TraceContext {
    pub trace_id: String,
    pub span_id: String,
    pub parent_span_id: Option<String>,
    pub sampled: bool,
}

/// The W3C `traceparent` value: version `00`, trace id, span id and the
/// sampled flag (`01` or `00`), joined by `-`.
pub open spec fn traceparent(trace_id: Seq<char>, span_id: Seq<char>, sampled: bool) -> Seq<char> {
    "00-"@ + trace_id + "-"@ + span_id + "-"@ + (if sampled { "01"@ } else { "00"@ })
}

/// What a `traceparent` value gives: exactly four `-`-separated parts, the
/// first `00`; the trace and span ids; sampled when the flags are `01`.
pub open spec fn parse_traceparent(header: Seq<char>) -> Option<(Seq<char>, Seq<char>, bool)> {
    let parts = split_char(header, '-');
    if parts.len() != 4 || parts[0] != "00"@ {
        None
    } else {
        Some((parts[1], parts[2], parts[3] == "01"@))
    }
}

impl TraceContext {
    /// A new root context: fresh trace and span ids, sampled.
    pub fn new() -> (res: Self)
        ensures
            res.parent_span_id is None,
            res.sampled,
            res.span_id@.len() == 16,
    {
        TraceContext {
            trace_id: generate_trace_id(),
            span_id: generate_span_id(),
            parent_span_id: None,
            sampled: true,
        }
    }

    /// A child span: same trace, fresh span id, this span as parent.
    pub fn child(&self) -> (res: Self)
        ensures
            res.trace_id@ == self.trace_id@,
            res.parent_span_id matches Some(p) && p@ == self.span_id@,
            res.sampled == self.sampled,
            res.span_id@.len() == 16,
    {
        TraceContext {
            trace_id: self.trace_id.clone(),
            span_id: generate_span_id(),
            parent_span_id: Some(self.span_id.clone()),
            sampled: self.sampled,
        }
    }

    /// Format as a W3C `traceparent` header.
    pub fn to_traceparent(&self) -> (res: String)
        ensures
            res@ == traceparent(self.trace_id@, self.span_id@, self.sampled),
    {
        let mut s = String::from_str("00-");
        s.append(self.trace_id.as_str());
        s.append("-");
        s.append(self.span_id.as_str());
        s.append("-");
        s.append(if self.sampled { "01" } else { "00" });
        s
    }

    /// Parse a W3C `traceparent` header.
    pub fn from_traceparent(header: &str) -> (res: Option<Self>)
        ensures
            res matches Some(c) ==> parse_traceparent(header@) == Some((c.trace_id@, c.span_id@, c.sampled))
                && c.parent_span_id is None,
            res is None ==> parse_traceparent(header@) is None,
    {
        let parts = split_str(header, '-');
        if parts.len() != 4 || !str_eq(parts[0].as_str(), "00") {
            return None;
        }
        let sampled = str_eq(parts[3].as_str(), "01");
        Some(TraceContext {
            trace_id: parts[1].clone(),
            span_id: parts[2].clone(),
            parent_span_id: None,
            sampled,
        })
    }
}

proof fn lemma_split_append_piece(a: Seq<char>, b: Seq<char>)
    requires
        forall|i: int| 0 <= i < b.len() ==> b[i] != '-',
    ensures
        split_char(a + "-"@ + b, '-') == split_char(a, '-').push(b),
    decreases b.len(),
{
    reveal_strlit("-");
    let s = a + "-"@ + b;
    if b.len() == 0 {
        assert(s.drop_last() =~= a);
        assert(s.last() == '-');
        assert(b =~= Seq::<char>::empty());
    } else {
        let b0 = b.drop_last();
        assert forall|i: int| 0 <= i < b0.len() implies b0[i] != '-' by {
            assert(b0[i] == b[i]);
        }
        lemma_split_append_piece(a, b0);
        assert(s.drop_last() =~= a + "-"@ + b0);
        assert(s.last() == b.last());
        assert(b0.push(b.last()) =~= b);
        let init = split_char(a, '-').push(b0);
        assert(split_char(s, '-') == init.update(init.len() - 1, init.last().push(s.last())));
        assert(init.update(init.len() - 1, init.last().push(s.last())) =~= split_char(a, '-').push(b));
    }
}

/// Reading back a written `traceparent` gives the same ids and flag, when the
/// ids hold no `-`.
pub proof fn lemma_traceparent_roundtrip(trace_id: Seq<char>, span_id: Seq<char>, sampled: bool)
    requires
        forall|i: int| 0 <= i < trace_id.len() ==> trace_id[i] != '-',
        forall|i: int| 0 <= i < span_id.len() ==> span_id[i] != '-',
    ensures
        parse_traceparent(traceparent(trace_id, span_id, sampled)) == Some((trace_id, span_id, sampled)),
{
    reveal_strlit("00-");
    reveal_strlit("-");
    reveal_strlit("01");
    reveal_strlit("00");
    let flags = if sampled { "01"@ } else { "00"@ };
    let zero = "00"@;
    assert forall|i: int| 0 <= i < zero.len() implies zero[i] != '-' by {}
    assert forall|i: int| 0 <= i < flags.len() implies flags[i] != '-' by {}
    // The header splits at its hyphens into the version, the two ids and the
    // flags, one piece at a time.
    lemma_split_no_sep(zero);
    let p1 = zero;
    lemma_split_append_piece(p1, trace_id);
    let p2 = p1 + "-"@ + trace_id;
    lemma_split_append_piece(p2, span_id);
    let p3 = p2 + "-"@ + span_id;
    lemma_split_append_piece(p3, flags);
    assert(traceparent(trace_id, span_id, sampled) =~= p3 + "-"@ + flags);
    assert(split_char(p3 + "-"@ + flags, '-') =~= seq![zero, trace_id, span_id, flags]);
    if !sampled {
        assert(flags != "01"@) by {
            assert(flags[1] != "01"@[1]);
        }
    }
}

/// A text without `-` is one piece.
proof fn lemma_split_no_sep(s: Seq<char>)
    requires
        forall|i: int| 0 <= i < s.len() ==> s[i] != '-',
    ensures
        split_char(s, '-') == seq![s],
    decreases s.len(),
{
    if s.len() > 0 {
        let t = s.drop_last();
        assert forall|i: int| 0 <= i < t.len() implies t[i] != '-' by {
            assert(t[i] == s[i]);
        }
        lemma_split_no_sep(t);
        assert(t.push(s.last()) =~= s);
    } else {
        assert(s =~= Seq::<char>::empty());
    }
}

/// Request counters by status and by path.
pub struct TelemetryMetrics {
    /// Total request count
    pub request_count: u64,
    /// Total error count (5xx responses)
    pub error_count: u64,
    /// Latency sum for average calculation
    pub latency_sum_ms: u64,
    /// Request count by status code, in order of first sight
    pub status_counts: Vec<(u16, u64)>,
    /// Request count by path
    pub path_counts: StrMap<u64>,
}

/// The count stored for `status`, or 0.
pub open spec fn status_count(v: Seq<(u16, u64)>, status: u16) -> u64
    decreases v.len(),
{
    if v.len() == 0 {
        0
    } else if v.last().0 == status {
        v.last().1
    } else {
        status_count(v.drop_last(), status)
    }
}

impl TelemetryMetrics {
    /// No status is listed twice; the path counts have unique keys.
    pub open spec fn wf(&self) -> bool {
        &&& self.path_counts.wf()
        &&& forall|i: int, j: int| 0 <= i < j < self.status_counts@.len() ==> self.status_counts@[i].0 != self.status_counts@[j].0
    }

    /// All counters at zero.
    pub fn new() -> (res: Self)
        ensures
            res.wf(),
            res.request_count == 0,
            res.error_count == 0,
            res.latency_sum_ms == 0,
            res.status_counts@.len() == 0,
            res.path_counts.seq().len() == 0,
    {
        TelemetryMetrics {
            request_count: 0,
            error_count: 0,
            latency_sum_ms: 0,
            status_counts: Vec::new(),
            path_counts: StrMap::new(),
        }
    }

    /// Count one request: its status (an error from 500 on), latency and path.
    /// Every counter moves on modulo 2^64.
    pub fn record_request(&mut self, status: u16, latency_ms: u64, path: &str)
        requires
            old(self).wf(),
        ensures
            final(self).wf(),
            final(self).request_count == old(self).request_count.wrapping_add(1),
            final(self).latency_sum_ms == old(self).latency_sum_ms.wrapping_add(latency_ms),
            final(self).error_count == if status >= 500 { old(self).error_count.wrapping_add(1) } else { old(self).error_count },
            status_count(final(self).status_counts@, status) == status_count(old(self).status_counts@, status).wrapping_add(1),
            forall|s: u16| s != status ==> #[trigger] status_count(final(self).status_counts@, s) == status_count(old(self).status_counts@, s),
            final(self).path_counts.to_map() == old(self).path_counts.to_map().insert(path@,
                if old(self).path_counts.to_map().dom().contains(path@) {
                    old(self).path_counts.to_map()[path@].wrapping_add(1)
                } else {
                    1u64
                }),
    {
        self.request_count = self.request_count.wrapping_add(1);
        self.latency_sum_ms = self.latency_sum_ms.wrapping_add(latency_ms);
        if status >= 500 {
            self.error_count = self.error_count.wrapping_add(1);
        }
        self.bump_status(status);
        let current: u64 = match self.path_counts.get(path) {
            Some(c) => *c,
            None => 0,
        };
        self.path_counts.insert(owned(path), current.wrapping_add(1));
    }

    fn bump_status(&mut self, status: u16)
        requires
            old(self).wf(),
        ensures
            final(self).wf(),
            final(self).request_count == old(self).request_count,
            final(self).latency_sum_ms == old(self).latency_sum_ms,
            final(self).error_count == old(self).error_count,
            final(self).path_counts == old(self).path_counts,
            status_count(final(self).status_counts@, status) == status_count(old(self).status_counts@, status).wrapping_add(1),
            forall|s: u16| s != status ==> #[trigger] status_count(final(self).status_counts@, s) == status_count(old(self).status_counts@, s),
    {
        let ghost v0 = self.status_counts@;
        let mut i: usize = 0;
        while i < self.status_counts.len()
            invariant
                self.status_counts@ == v0,
                *self == *old(self),
                old(self).wf(),
                v0 == old(self).status_counts@,
                i <= v0.len(),
                forall|j: int| 0 <= j < i ==> v0[j].0 != status,
            decreases self.status_counts.len() - i,
        {
            if self.status_counts[i].0 == status {
                let c = self.status_counts[i].1;
                self.status_counts.set(i, (status, c.wrapping_add(1)));
                proof {
                    lemma_status_count_update(v0, i as int, status, c.wrapping_add(1));
                }
                return;
            }
            i = i + 1;
        }
        self.status_counts.push((status, 1));
        proof {
            lemma_status_count_absent(v0, status);
            assert(self.status_counts@.drop_last() =~= v0);
            assert forall|a: int, b: int| 0 <= a < b < self.status_counts@.len() implies
                self.status_counts@[a].0 != self.status_counts@[b].0 by {
                if b == v0.len() {
                    assert(v0[a].0 != status);
                }
            }
        }
    }
}

proof fn lemma_status_count_absent(v: Seq<(u16, u64)>, status: u16)
    requires
        forall|j: int| 0 <= j < v.len() ==> v[j].0 != status,
    ensures
        status_count(v, status) == 0,
    decreases v.len(),
{
    if v.len() > 0 {
        let t = v.drop_last();
        assert forall|j: int| 0 <= j < t.len() implies t[j].0 != status by {
            assert(t[j] == v[j]);
        }
        lemma_status_count_absent(t, status);
    }
}

proof fn lemma_status_count_update(v: Seq<(u16, u64)>, i: int, status: u16, c: u64)
    requires
        0 <= i < v.len(),
        v[i].0 == status,
        forall|a: int, b: int| 0 <= a < b < v.len() ==> v[a].0 != v[b].0,
    ensures
        status_count(v.update(i, (status, c)), status) == c,
        status_count(v, status) == v[i].1,
        forall|s: u16| s != status ==> #[trigger] status_count(v.update(i, (status, c)), s) == status_count(v, s),
    decreases v.len(),
{
    let w = v.update(i, (status, c));
    if i == v.len() - 1 {
        assert(w.drop_last() =~= v.drop_last());
    } else {
        let t = v.drop_last();
        assert forall|a: int, b: int| 0 <= a < b < t.len() implies t[a].0 != t[b].0 by {
            assert(t[a] == v[a] && t[b] == v[b]);
        }
        lemma_status_count_update(t, i, status, c);
        assert(w.drop_last() =~= t.update(i, (status, c)));
        assert(v.last().0 != status);
        assert(w.last() == v.last());
        assert forall|s: u16| s != status implies #[trigger] status_count(w, s) == status_count(v, s) by {
            if v.last().0 != s {
                assert(status_count(t.update(i, (status, c)), s) == status_count(t, s));
            }
        }
    }
}

// ============================================================================
// Tracing middleware
// ============================================================================

/// Tracing configuration (the sampling rate is kept with the exporter).
pub struct OpenTelemetryConfig {
    pub service_name: String,
    pub service_version: String,
    pub otlp_endpoint: Option<String>,
    pub export_traces: bool,
    pub export_metrics: bool,
    /// Take the trace from `traceparent` and echo it in the response.
    pub propagate_context: bool,
    pub excluded_paths: Vec<String>,
    pub resource_attributes: StrMap<String>,
}

/// The version reported for the service by default: this library's.
pub const SERVICE_VERSION: &'static str = "0.1.0";

impl OpenTelemetryConfig {
    /// A configuration for a service: exporting traces and metrics,
    /// propagating context, `/health` and `/metrics` not traced.
    pub fn new(service_name: &str) -> (res: Self)
        ensures
            res.service_name@ == service_name@,
            res.otlp_endpoint is None,
            res.export_traces && res.export_metrics && res.propagate_context,
            views(res.excluded_paths@) == seq!["/health"@, "/metrics"@],
            res.resource_attributes.wf(),
            res.resource_attributes.seq().len() == 0,
    {
        let v = vec![String::from_str("/health"), String::from_str("/metrics")];
        assert(views(v@) =~= seq!["/health"@, "/metrics"@]);
        OpenTelemetryConfig {
            service_name: owned(service_name),
            service_version: String::from_str(SERVICE_VERSION),
            otlp_endpoint: None,
            export_traces: true,
            export_metrics: true,
            propagate_context: true,
            excluded_paths: v,
            resource_attributes: StrMap::new(),
        }
    }

    /// Set the exporter endpoint.
    pub fn with_endpoint(self, endpoint: &str) -> (res: Self)
        ensures
            res.otlp_endpoint matches Some(e) && e@ == endpoint@,
            res.service_name == self.service_name,
            res.excluded_paths == self.excluded_paths,
            res.propagate_context == self.propagate_context,
            res.resource_attributes == self.resource_attributes,
    {
        let mut c = self;
        c.otlp_endpoint = Some(owned(endpoint));
        c
    }

    /// Do not trace paths under `path`.
    pub fn exclude_path(self, path: &str) -> (res: Self)
        ensures
            views(res.excluded_paths@) == views(self.excluded_paths@).push(path@),
            res.service_name == self.service_name,
            res.propagate_context == self.propagate_context,
            res.resource_attributes == self.resource_attributes,
    {
        let mut c = self;
        c.excluded_paths.push(owned(path));
        assert(views(c.excluded_paths@) =~= views(self.excluded_paths@).push(path@));
        c
    }

    /// Add a resource attribute.
    pub fn with_attribute(self, key: &str, value: &str) -> (res: Self)
        requires
            self.resource_attributes.wf(),
        ensures
            res.resource_attributes.wf(),
            res.resource_attributes.to_map().map_values(|v: String| v@)
                == self.resource_attributes.to_map().map_values(|v: String| v@).insert(key@, value@),
            res.service_name == self.service_name,
            res.excluded_paths == self.excluded_paths,
            res.propagate_context == self.propagate_context,
    {
        let mut c = self;
        c.resource_attributes.insert(owned(key), owned(value));
        assert(c.resource_attributes.to_map().map_values(|v: String| v@)
            =~= self.resource_attributes.to_map().map_values(|v: String| v@).insert(key@, value@));
        c
    }
}

/// The tracing middleware: trace context in, trace headers out, and request
/// counters.
pub struct OpenTelemetryMiddleware {
    pub config: OpenTelemetryConfig,
    pub metrics: TelemetryMetrics,
}

/// Whether a path is traced.
pub open spec fn traced(c: OpenTelemetryConfig, path: Seq<char>) -> bool {
    !exists|i: int| 0 <= i < c.excluded_paths@.len() && skip_match(path, #[trigger] c.excluded_paths@[i]@)
}

/// The trace id and parent span id a `traceparent` header carries: its second
/// and third `-`-separated parts, when it has four.
pub open spec fn incoming_trace(header: Seq<char>) -> Option<(Seq<char>, Seq<char>)> {
    let parts = split_char(header, '-');
    if parts.len() == 4 { Some((parts[1], parts[2])) } else { None }
}

/// The context string under `key`, or empty.
pub open spec fn context_text_or_empty(r: Request, key: Seq<char>) -> Seq<char> {
    match r.context_value(key) {
        Some(JsonValue::Str(s)) => s@,
        _ => Seq::empty(),
    }
}

impl OpenTelemetryMiddleware {
    pub open spec fn wf(&self) -> bool {
        self.metrics.wf()
    }

    /// A middleware with a configuration and zeroed counters.
    pub fn new(config: OpenTelemetryConfig) -> (res: Self)
        ensures
            res.wf(),
            res.config == config,
            res.metrics.request_count == 0,
    {
        OpenTelemetryMiddleware { config, metrics: TelemetryMetrics::new() }
    }

    /// The counters.
    pub fn get_metrics(&self) -> (res: &TelemetryMetrics)
        ensures
            *res == self.metrics,
    {
        &self.metrics
    }

    /// Whether a path is traced.
    pub fn should_trace(&self, path: &str) -> (res: bool)
        ensures
            res == traced(self.config, path@),
    {
        !crate::pathmatch::matches_any(path, &self.config.excluded_paths)
    }

    /// The trace id and parent span id of the request's `traceparent`, when
    /// context is propagated.
    pub fn extract_trace_context(&self, request: &Request) -> (res: Option<(String, String)>)
        requires
            request.wf(),
        ensures
            match (self.config.propagate_context, request.header("traceparent"@)) {
                (true, Some(h)) => match incoming_trace(h) {
                    Some((t, p)) => res matches Some(x) && x.0@ == t && x.1@ == p,
                    None => res is None,
                },
                _ => res is None,
            },
    {
        if !self.config.propagate_context {
            return None;
        }
        match request.header_value("traceparent") {
            Some(h) => {
                let parts = split_str(h, '-');
                if parts.len() == 4 {
                    assert(parts@[1]@ == views(parts@)[1]);
                    assert(parts@[2]@ == views(parts@)[2]);
                    Some((parts[1].clone(), parts[2].clone()))
                } else {
                    None
                }
            },
            None => None,
        }
    }

    /// Before the handler, for a traced path: the trace id (the incoming one,
    /// else a fresh one), a fresh span id, the parent span id (or empty) and a
    /// start time go into the context.
    #[verifier::rlimit(40)]
    pub fn before(&self, request: &mut Request) -> (res: MiddlewareAction)
        requires
            old(request).wf(),
        ensures
            res is Continue,
            final(request).wf(),
            !traced(self.config, old(request).path@) ==> *final(request) == *old(request),
            traced(self.config, old(request).path@) ==> {
                &&& final(request).context.to_map().dom() == old(request).context.to_map().dom()
                    .insert("trace_id"@).insert("span_id"@).insert("parent_span_id"@).insert("trace_start_time"@)
                &&& final(request).context_value("trace_id"@) matches Some(JsonValue::Str(t)) && match (self.config.propagate_context, old(request).header("traceparent"@)) {
                    (true, Some(h)) => match incoming_trace(h) {
                        Some((ti, _)) => t@ == ti,
                        None => exists|b: Seq<u8>| b.len() == 16 && t@ == without_hyphens(uuid_text(uuid_v4_bytes(b))),
                    },
                    _ => exists|b: Seq<u8>| b.len() == 16 && t@ == without_hyphens(uuid_text(uuid_v4_bytes(b))),
                }
                &&& final(request).context_value("span_id"@) matches Some(JsonValue::Str(sp)) && sp@.len() == 16
                &&& final(request).context_value("parent_span_id"@) matches Some(JsonValue::Str(p)) && match (self.config.propagate_context, old(request).header("traceparent"@)) {
                    (true, Some(h)) => match incoming_trace(h) {
                        Some((_, pi)) => p@ == pi,
                        None => p@.len() == 0,
                    },
                    _ => p@.len() == 0,
                }
                &&& final(request).method == old(request).method
                &&& final(request).path == old(request).path
                &&& final(request).headers == old(request).headers
            },
    {
        if !self.should_trace(request.path.as_str()) {
            return MiddlewareAction::Continue;
        }
        let (trace_id, parent) = match self.extract_trace_context(request) {
            Some(tp) => tp,
            None => (generate_trace_id(), String::new()),
        };
        let span_id = generate_span_id();
        let started = crate::cluster::elapsed_nanos(&crate::cluster::instant_now());
        let started64: u64 = if started > 0xFFFF_FFFF_FFFF_FFFFu128 { 0xFFFF_FFFF_FFFF_FFFFu64 } else { started as u64 };
        let ghost c0 = request.context.to_map().dom();
        let ghost tv = trace_id@;
        let ghost sv = span_id@;
        let ghost pv = parent@;
        proof {
            reveal_strlit("trace_id");
            reveal_strlit("span_id");
            reveal_strlit("parent_span_id");
            reveal_strlit("trace_start_time");
            assert("trace_id"@.len() == 8 && "span_id"@.len() == 7 && "parent_span_id"@.len() == 14 && "trace_start_time"@.len() == 16);
            assert("trace_id"@ != "span_id"@ && "trace_id"@ != "parent_span_id"@ && "trace_id"@ != "trace_start_time"@);
            assert("span_id"@ != "parent_span_id"@ && "span_id"@ != "trace_start_time"@);
            assert("parent_span_id"@ != "trace_start_time"@);
        }
        let tj = JsonValue::Str(trace_id);
        let ghost gt = tj;
        request.set_context_internal("trace_id", tj);
        assert(request.context.to_map().dom().contains("trace_id"@));
        assert(request.context.to_map()["trace_id"@] == gt);
        assert(request.context_value("trace_id"@) == Some(gt));
        request.set_context_internal("span_id", JsonValue::Str(span_id));
        assert(request.context_value("trace_id"@) matches Some(JsonValue::Str(t)) && t@ == tv);
        assert(request.context_value("span_id"@) matches Some(JsonValue::Str(t)) && t@ == sv);
        request.set_context_internal("parent_span_id", JsonValue::Str(parent));
        assert(request.context_value("trace_id"@) matches Some(JsonValue::Str(t)) && t@ == tv);
        assert(request.context_value("span_id"@) matches Some(JsonValue::Str(t)) && t@ == sv);
        assert(request.context_value("parent_span_id"@) matches Some(JsonValue::Str(t)) && t@ == pv);
        request.set_context_internal("trace_start_time", JsonValue::Str(crate::text::u64_to_string(started64)));
        assert(request.context_value("trace_id"@) matches Some(JsonValue::Str(t)) && t@ == tv);
        assert(request.context_value("span_id"@) matches Some(JsonValue::Str(t)) && t@ == sv);
        assert(request.context_value("parent_span_id"@) matches Some(JsonValue::Str(t)) && t@ == pv);
        assert(request.context.to_map().dom() =~= c0.insert("trace_id"@).insert("span_id"@).insert("parent_span_id"@).insert("trace_start_time"@));
        MiddlewareAction::Continue
    }

    /// After the handler, for a traced path: the request is counted (with a
    /// latency of 1 ms), and with context propagation and a trace id the trace
    /// and span ids are sent back.
    pub fn after(&mut self, request: &Request, response: &mut Response) -> (res: MiddlewareAction)
        requires
            old(self).wf(),
            request.wf(),
            old(response).wf(),
        ensures
            res is Continue,
            final(self).wf(),
            final(self).config == old(self).config,
            final(response).wf(),
            final(response).status == old(response).status,
            final(response).body == old(response).body,
            !traced(old(self).config, request.path@) ==> final(self).metrics == old(self).metrics
                && final(response).header_map() == old(response).header_map(),
            traced(old(self).config, request.path@) ==> {
                &&& final(self).metrics.request_count == old(self).metrics.request_count.wrapping_add(1)
                &&& final(self).metrics.latency_sum_ms == old(self).metrics.latency_sum_ms.wrapping_add(1)
                &&& final(response).header_map() == if old(self).config.propagate_context
                    && context_text_or_empty(*request, "trace_id"@).len() > 0 {
                    old(response).header_map()
                        .insert("X-Trace-ID"@, strip_ctl(context_text_or_empty(*request, "trace_id"@)))
                        .insert("X-Span-ID"@, strip_ctl(context_text_or_empty(*request, "span_id"@)))
                } else {
                    old(response).header_map()
                }
            },
    {
        if !self.should_trace(request.path.as_str()) {
            return MiddlewareAction::Continue;
        }
        let trace_id: &str = match request.context.get("trace_id") {
            Some(JsonValue::Str(t)) => t.as_str(),
            _ => "",
        };
        let span_id: &str = match request.context.get("span_id") {
            Some(JsonValue::Str(t)) => t.as_str(),
            _ => "",
        };
        proof {
            reveal_strlit("");
        }
        assert(trace_id@ == context_text_or_empty(*request, "trace_id"@));
        assert(span_id@ == context_text_or_empty(*request, "span_id"@));
        self.metrics.record_request(response.status, 1, request.path.as_str());
        if self.config.propagate_context && trace_id.unicode_len() > 0 {
            response.set_header("X-Trace-ID", trace_id);
            response.set_header("X-Span-ID", span_id);
        }
        MiddlewareAction::Continue
    }

    /// Runs first of all.
    pub fn priority(&self) -> (res: i32)
        ensures
            res == -300,
    {
        -300
    }

    /// The middleware's name.
    pub fn name(&self) -> (res: &'static str)
        ensures
            res@ == "opentelemetry"@,
    {
        "opentelemetry"
    }
}

} // verus!
