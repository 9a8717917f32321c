//! Request identifiers: UUID v4, short hex, timestamp-and-counter and
//! prefixed forms, taken from a trusted incoming header or generated, and
//! echoed in the response.
use vstd::prelude::*;
use vstd::string::*;
use crate::http::{JsonValue, MiddlewareAction, Request, Response, strip_ctl};
use crate::random::{hex_encode, hex_of, lemma_hex_len, random_bytes};
use crate::text::{append_u64, dec, owned, push_char, to_lowercase, unicode_lowercase};
use crate::time::unix_now_secs;

verus! {

// ============================================================================
// ID generation
// ============================================================================

/// Request ID format.
pub enum IdFormat {
    /// UUID v4 format (e.g., "550e8400-e29b-41d4-a716-446655440000")
    Uuid,
    /// Short hex format of the given length (e.g., "a1b2c3d4e5f6")
    ShortHex(usize),
    /// Timestamp + counter format (e.g., "1700000000-000001")
    TimestampCounter,
    /// Prefix + UUID (e.g., "req_550e8400...")
    PrefixedUuid(String),
}

/// Sixteen random bytes with the version (4) and RFC 4122 variant bits set.
pub open spec fn uuid_v4_bytes(b: Seq<u8>) -> Seq<u8> {
    b.update(6, (b[6] & 0x0f) | 0x40).update(8, (b[8] & 0x3f) | 0x80)
}

/// The 8-4-4-4-12 lowercase hex form of sixteen bytes.
pub open spec fn uuid_text(b: Seq<u8>) -> Seq<char> {
    hex_of(b.subrange(0, 4)) + "-"@ + hex_of(b.subrange(4, 6)) + "-"@ + hex_of(b.subrange(6, 8)) + "-"@
        + hex_of(b.subrange(8, 10)) + "-"@ + hex_of(b.subrange(10, 16))
}

/// A UUID v4 drawn from sixteen random bytes.
pub open spec fn is_uuid_v4(s: Seq<char>) -> bool {
    exists|b: Seq<u8>| b.len() == 16 && s == uuid_text(uuid_v4_bytes(b))
}

/// Generate a random UUID v4.
pub fn generate_uuid() -> (res: String)
    ensures
        is_uuid_v4(res@),
        res@.len() == 36,
{
    let raw = random_bytes(16);
    let mut b = raw.clone();
    assert(b@ == raw@);
    let b6 = b[6];
    let b8 = b[8];
    b.set(6, (b6 & 0x0f) | 0x40);
    b.set(8, (b8 & 0x3f) | 0x80);
    assert(b@ =~= uuid_v4_bytes(raw@));
    let s = b.as_slice();
    let mut out = hex_encode(vstd::slice::slice_subrange(s, 0, 4));
    out.append("-");
    let p = hex_encode(vstd::slice::slice_subrange(s, 4, 6));
    out.append(p.as_str());
    out.append("-");
    let p = hex_encode(vstd::slice::slice_subrange(s, 6, 8));
    out.append(p.as_str());
    out.append("-");
    let p = hex_encode(vstd::slice::slice_subrange(s, 8, 10));
    out.append(p.as_str());
    out.append("-");
    let p = hex_encode(vstd::slice::slice_subrange(s, 10, 16));
    out.append(p.as_str());
    proof {
        lemma_hex_len(b@.subrange(0, 4));
        lemma_hex_len(b@.subrange(4, 6));
        lemma_hex_len(b@.subrange(6, 8));
        lemma_hex_len(b@.subrange(8, 10));
        lemma_hex_len(b@.subrange(10, 16));
        reveal_strlit("-");
    }
    out
}

/// Generate a random lowercase hex ID of `length` characters.
pub fn generate_short_hex(length: usize) -> (res: String)
    requires
        length / 2 + 1 <= usize::MAX,
    ensures
        exists|b: Seq<u8>| b.len() == length / 2 + 1 && res@ == hex_of(b).subrange(0, length as int),
        res@.len() == length,
{
    let bytes = random_bytes(length / 2 + 1);
    let h = hex_encode(bytes.as_slice());
    proof {
        lemma_hex_len(bytes@);
    }
    owned(h.as_str().substring_char(0, length))
}

/// `n` as at least six decimal digits, zero-padded (`{:06}`).
pub open spec fn pad6(n: nat) -> Seq<char> {
    let d = dec(n);
    if d.len() < 6 {
        Seq::new((6 - d.len()) as nat, |i: int| '0') + d
    } else {
        d
    }
}

/// The timestamp-and-counter form: the seconds, a `-`, and the counter modulo
/// one million as six digits.
pub open spec fn timestamp_counter_text(timestamp: u64, counter: u64) -> Seq<char> {
    dec(timestamp as nat) + "-"@ + pad6((counter % 1000000) as nat)
}

/// Appends `n` zero-padded to six digits.
fn append_pad6(out: &mut String, n: u64)
    requires
        n < 1000000,
    ensures
        final(out)@ == old(out)@ + pad6(n as nat),
{
    let d = crate::text::u64_to_string(n);
    let len = d.unicode_len();
    let mut zeros: usize = 0;
    let ghost start = out@;
    while len + zeros < 6
        invariant
            out@ == start + Seq::new(zeros as nat, |i: int| '0'),
            len == dec(n as nat).len(),
            len + zeros <= 6 || zeros == 0,
        decreases 6 - (len + zeros),
    {
        push_char(out, '0');
        zeros = zeros + 1;
        assert(out@ =~= start + Seq::new(zeros as nat, |i: int| '0'));
    }
    out.append(d.as_str());
    proof {
        crate::text::lemma_dec_nonempty(n as nat);
        if len < 6 {
            assert(zeros == 6 - len);
        } else {
            assert(zeros == 0);
            assert(Seq::new(0 as nat, |i: int| '0') =~= Seq::<char>::empty());
        }
        assert(out@ =~= start + pad6(n as nat));
    }
}

/// Generate a timestamp-and-counter ID from the current time, taking the next
/// value of `counter` (which then moves on by one, wrapping).
pub fn generate_timestamp_counter(counter: &mut u64) -> (res: String)
    ensures
        *final(counter) == old(counter).wrapping_add(1),
        exists|ts: u64| res@ == timestamp_counter_text(ts, *old(counter)),
{
    let timestamp = unix_now_secs();
    let c = *counter;
    *counter = c.wrapping_add(1);
    let mut s = String::new();
    append_u64(&mut s, timestamp);
    s.append("-");
    append_pad6(&mut s, c % 1000000);
    assert(s@ =~= timestamp_counter_text(timestamp, c));
    s
}

impl IdFormat {
    /// What an ID of this format looks like, with `counter` the counter value taken.
    pub open spec fn shaped(&self, id: Seq<char>, counter: u64) -> bool {
        match self {
            IdFormat::Uuid => is_uuid_v4(id),
            IdFormat::ShortHex(len) => exists|b: Seq<u8>| b.len() == *len / 2 + 1 && id == hex_of(b).subrange(0, *len as int),
            IdFormat::TimestampCounter => exists|ts: u64| id == timestamp_counter_text(ts, counter),
            IdFormat::PrefixedUuid(p) => exists|u: Seq<char>| is_uuid_v4(u) && id == p@ + "_"@ + u,
        }
    }

    /// Generate an ID in this format; the timestamp-and-counter format takes
    /// the next value of `counter`.
    pub fn generate(&self, counter: &mut u64) -> (res: String)
        requires
            self matches IdFormat::ShortHex(len) ==> len / 2 + 1 <= usize::MAX,
        ensures
            self.shaped(res@, *old(counter)),
            self is TimestampCounter ==> *final(counter) == old(counter).wrapping_add(1),
            !(self is TimestampCounter) ==> *final(counter) == *old(counter),
    {
        match self {
            IdFormat::Uuid => generate_uuid(),
            IdFormat::ShortHex(len) => generate_short_hex(*len),
            IdFormat::TimestampCounter => generate_timestamp_counter(counter),
            IdFormat::PrefixedUuid(prefix) => {
                let u = generate_uuid();
                let mut s = prefix.clone();
                s.append("_");
                s.append(u.as_str());
                s
            },
        }
    }

    /// The default: UUID v4.
    pub fn default() -> (res: Self)
        ensures
            res is Uuid,
    {
        IdFormat::Uuid
    }
}

// ============================================================================
// Middleware
// ============================================================================

/// Request ID middleware.
pub struct RequestIdMiddleware {
    /// Header name for incoming request ID
    pub incoming_header: String,
    /// Header name for outgoing response ID
    pub outgoing_header: String,
    /// ID format for generation
    pub format: IdFormat,
    /// Whether to trust incoming request IDs
    pub trust_incoming: bool,
    /// Context key for storing request ID
    pub context_key: String,
    /// Whether to add to response headers
    pub expose_in_response: bool,
    /// The next value of the timestamp-and-counter sequence
    pub counter: u64,
}

impl RequestIdMiddleware {
    pub open spec fn wf(&self) -> bool {
        self.format matches IdFormat::ShortHex(len) ==> len / 2 + 1 <= usize::MAX
    }

    /// The defaults: `X-Request-ID` in and out, UUIDs, incoming IDs not
    /// trusted, context key `request_id`, exposed in the response.
    pub open spec fn is_default(&self) -> bool {
        &&& self.incoming_header@ == "X-Request-ID"@
        &&& self.outgoing_header@ == "X-Request-ID"@
        &&& self.format is Uuid
        &&& !self.trust_incoming
        &&& self.context_key@ == "request_id"@
        &&& self.expose_in_response
        &&& self.counter == 0
    }

    /// Create new request ID middleware.
    pub fn new() -> (res: Self)
        ensures
            res.wf(),
            res.is_default(),
    {
        RequestIdMiddleware {
            incoming_header: String::from_str("X-Request-ID"),
            outgoing_header: String::from_str("X-Request-ID"),
            format: IdFormat::default(),
            trust_incoming: false,
            context_key: String::from_str("request_id"),
            expose_in_response: true,
            counter: 0,
        }
    }

    /// Set incoming header name.
    pub fn incoming_header(self, name: &str) -> (res: Self)
        ensures
            res.incoming_header@ == name@,
            res == (RequestIdMiddleware { incoming_header: res.incoming_header, ..self }),
    {
        let mut m = self;
        m.incoming_header = owned(name);
        m
    }

    /// Set outgoing header name.
    pub fn outgoing_header(self, name: &str) -> (res: Self)
        ensures
            res.outgoing_header@ == name@,
            res == (RequestIdMiddleware { outgoing_header: res.outgoing_header, ..self }),
    {
        let mut m = self;
        m.outgoing_header = owned(name);
        m
    }

    /// Set both header names.
    pub fn header(self, name: &str) -> (res: Self)
        ensures
            res.incoming_header@ == name@,
            res.outgoing_header@ == name@,
            res == (RequestIdMiddleware { incoming_header: res.incoming_header, outgoing_header: res.outgoing_header, ..self }),
    {
        let mut m = self;
        m.incoming_header = owned(name);
        m.outgoing_header = owned(name);
        m
    }

    /// Set ID format.
    pub fn format(self, format: IdFormat) -> (res: Self)
        ensures
            res == (RequestIdMiddleware { format, ..self }),
    {
        let mut m = self;
        m.format = format;
        m
    }

    /// Use UUID format.
    pub fn uuid(self) -> (res: Self)
        ensures
            res == (RequestIdMiddleware { format: IdFormat::Uuid, ..self }),
    {
        self.format(IdFormat::Uuid)
    }

    /// Use short hex format.
    pub fn short_hex(self, length: usize) -> (res: Self)
        ensures
            res == (RequestIdMiddleware { format: IdFormat::ShortHex(length), ..self }),
    {
        self.format(IdFormat::ShortHex(length))
    }

    /// Use timestamp + counter format.
    pub fn timestamp_counter(self) -> (res: Self)
        ensures
            res == (RequestIdMiddleware { format: IdFormat::TimestampCounter, ..self }),
    {
        self.format(IdFormat::TimestampCounter)
    }

    /// Use prefixed UUID format.
    pub fn prefixed_uuid(self, prefix: &str) -> (res: Self)
        ensures
            res.format matches IdFormat::PrefixedUuid(p) && p@ == prefix@,
            res == (RequestIdMiddleware { format: res.format, ..self }),
    {
        self.format(IdFormat::PrefixedUuid(owned(prefix)))
    }

    /// Trust incoming request IDs from clients.
    pub fn trust_incoming(self, trust: bool) -> (res: Self)
        ensures
            res == (RequestIdMiddleware { trust_incoming: trust, ..self }),
    {
        let mut m = self;
        m.trust_incoming = trust;
        m
    }

    /// Set context key for storing request ID.
    pub fn context_key(self, key: &str) -> (res: Self)
        ensures
            res.context_key@ == key@,
            res == (RequestIdMiddleware { context_key: res.context_key, ..self }),
    {
        let mut m = self;
        m.context_key = owned(key);
        m
    }

    /// Enable/disable exposing request ID in response.
    pub fn expose_in_response(self, expose: bool) -> (res: Self)
        ensures
            res == (RequestIdMiddleware { expose_in_response: expose, ..self }),
    {
        let mut m = self;
        m.expose_in_response = expose;
        m
    }

    /// The request's ID: the trusted incoming header when there is one, else
    /// a fresh one of the configured format.
    pub open spec fn incoming(&self, request: Request) -> Option<Seq<char>> {
        if self.trust_incoming {
            request.header(unicode_lowercase(self.incoming_header@))
        } else {
            None
        }
    }

    /// Before the handler: the request's ID (the trusted incoming one, else a
    /// fresh one) goes into the context under the context key.
    pub fn before(&mut self, request: &mut Request) -> (res: MiddlewareAction)
        requires
            old(self).wf(),
            old(request).wf(),
        ensures
            final(self).wf(),
            res is Continue,
            final(request).wf(),
            final(request).context.to_map().dom() == old(request).context.to_map().dom().insert(old(self).context_key@),
            forall|k: Seq<char>| k != old(self).context_key@ && #[trigger] old(request).context.to_map().dom().contains(k)
                ==> final(request).context.to_map()[k] == old(request).context.to_map()[k],
            final(request).context_value(old(self).context_key@) matches Some(JsonValue::Str(id)) && match old(self).incoming(*old(request)) {
                Some(h) => id@ == h && final(self).counter == old(self).counter,
                None => old(self).format.shaped(id@, old(self).counter)
                    && (old(self).format is TimestampCounter ==> final(self).counter == old(self).counter.wrapping_add(1))
                    && (!(old(self).format is TimestampCounter) ==> final(self).counter == old(self).counter),
            },
            *final(self) == (RequestIdMiddleware { counter: final(self).counter, ..*old(self) }),
            final(request).method == old(request).method,
            final(request).path == old(request).path,
            final(request).headers == old(request).headers,
            final(request).body == old(request).body,
    {
        let mut found: Option<String> = None;
        if self.trust_incoming {
            let key = to_lowercase(self.incoming_header.as_str());
            match request.header_value(key.as_str()) {
                Some(id) => {
                    found = Some(owned(id));
                },
                None => {},
            }
        }
        let id = match found {
            Some(id) => id,
            None => {
                let mut counter = self.counter;
                let id = self.format.generate(&mut counter);
                self.counter = counter;
                id
            },
        };
        request.set_context_internal(self.context_key.as_str(), JsonValue::Str(id));
        assert(request.context.to_map().dom() =~= old(request).context.to_map().dom().insert(old(self).context_key@));
        MiddlewareAction::Continue
    }

    /// After the handler: the request's ID from the context is sent in the
    /// outgoing header, when exposed.
    pub fn after(&self, request: &Request, response: &mut Response)
        requires
            request.wf(),
            old(response).wf(),
        ensures
            final(response).wf(),
            match (self.expose_in_response, request.context_value(self.context_key@)) {
                (true, Some(JsonValue::Str(id))) => final(response).header_map()
                    == old(response).header_map().insert(self.outgoing_header@, strip_ctl(id@)),
                _ => final(response).header_map() == old(response).header_map(),
            },
            final(response).status == old(response).status,
            final(response).body == old(response).body,
    {
        if self.expose_in_response {
            match request.context.get(self.context_key.as_str()) {
                Some(JsonValue::Str(id)) => response.set_header(self.outgoing_header.as_str(), id.as_str()),
                _ => {},
            }
        }
    }

    /// Runs very early, before logging.
    pub fn priority(&self) -> (res: i32)
        ensures
            res == -150,
    {
        -150
    }

    /// The middleware's name.
    pub fn name(&self) -> (res: &'static str)
        ensures
            res@ == "request_id"@,
    {
        "request_id"
    }

    /// The default middleware (that of `new`).
    pub fn default() -> (res: Self)
        ensures
            res.wf(),
            res.is_default(),
    {
        Self::new()
    }
}

/// The request's ID that the middleware left under `request_id`.
pub fn get_request_id(request: &Request) -> (res: Option<String>)
    requires
        request.wf(),
    ensures
        match request.context_value("request_id"@) {
            Some(JsonValue::Str(s)) => res matches Some(r) && r@ == s@,
            _ => res is None,
        },
{
    request.get_context_str("request_id")
}

/// The request's ID that the middleware left under a custom key.
pub fn get_request_id_with_key(request: &Request, key: &str) -> (res: Option<String>)
    requires
        request.wf(),
    ensures
        match request.context_value(key@) {
            Some(JsonValue::Str(s)) => res matches Some(r) && r@ == s@,
            _ => res is None,
        },
{
    request.get_context_str(key)
}

} // verus!
