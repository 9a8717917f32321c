//! Health checks: component status, the report that aggregates them, the
//! configuration, and which probe endpoint a request path names.
use vstd::prelude::*;
use vstd::string::*;
use crate::strmap::StrMap;
use crate::text::{is_prefix, owned, str_eq, str_starts_with};
use crate::time::Duration;

verus! {

/// The current time in RFC 3339 form, from `chrono::Utc::now().to_rfc3339()`.
/// Nothing is promised of the text: it is the machine's clock.
#[verifier::external_body]
pub(crate) fn now_rfc3339() -> String {
    chrono::Utc::now().to_rfc3339()
}

/// Health status of a component.
#[derive(Debug, Clone, Copy, PartialEq, Eq, Structural)]
pub enum HealthStatus {
    /// Component is healthy
    Up,
    /// Component is unhealthy
    Down,
    /// Component health is unknown
    Unknown,
    /// Component is partially healthy (degraded)
    Degraded,
}

impl HealthStatus {
    /// Up and degraded components serve traffic.
    pub open spec fn spec_healthy(&self) -> bool {
        *self is Up || *self is Degraded
    }

    /// Whether the status counts as healthy.
    pub fn is_healthy(&self) -> (res: bool)
        ensures
            res == self.spec_healthy(),
    {
        match self {
            HealthStatus::Up | HealthStatus::Degraded => true,
            _ => false,
        }
    }

    /// The upper-case name.
    pub fn as_str(&self) -> (res: &'static str)
        ensures
            res@ == match self {
                HealthStatus::Up => "UP"@,
                HealthStatus::Down => "DOWN"@,
                HealthStatus::Unknown => "UNKNOWN"@,
                HealthStatus::Degraded => "DEGRADED"@,
            },
    {
        match self {
            HealthStatus::Up => "UP",
            HealthStatus::Down => "DOWN",
            HealthStatus::Unknown => "UNKNOWN",
            HealthStatus::Degraded => "DEGRADED",
        }
    }

    /// The default: unknown.
    pub fn default() -> (res: Self)
        ensures
            res == HealthStatus::Unknown,
    {
        HealthStatus::Unknown
    }
}

/// Result of a health check.
pub struct HealthCheckResult {
    pub name: String,
    pub status: HealthStatus,
    pub message: Option<String>,
    pub duration_ms: u64,
    pub timestamp: String,
}

impl HealthCheckResult {
    /// A healthy result, stamped now.
    pub fn up(name: &str) -> (res: Self)
        ensures
            res.name@ == name@,
            res.status == HealthStatus::Up,
            res.message is None,
            res.duration_ms == 0,
    {
        HealthCheckResult {
            name: owned(name),
            status: HealthStatus::Up,
            message: None,
            duration_ms: 0,
            timestamp: now_rfc3339(),
        }
    }

    /// A failed result with its message, stamped now.
    pub fn down(name: &str, message: &str) -> (res: Self)
        ensures
            res.name@ == name@,
            res.status == HealthStatus::Down,
            res.message matches Some(m) && m@ == message@,
            res.duration_ms == 0,
    {
        HealthCheckResult {
            name: owned(name),
            status: HealthStatus::Down,
            message: Some(owned(message)),
            duration_ms: 0,
            timestamp: now_rfc3339(),
        }
    }

    /// Record how long the check took, in milliseconds.
    pub fn with_duration(self, duration_ms: u64) -> (res: Self)
        ensures
            res == (HealthCheckResult { duration_ms, ..self }),
    {
        let mut r = self;
        r.duration_ms = duration_ms;
        r
    }
}

/// The overall status after one more check: down stays down and a down check
/// makes it down; a degraded check makes a status other than down degraded.
pub open spec fn combine(overall: HealthStatus, check: HealthStatus) -> HealthStatus {
    if check == HealthStatus::Down {
        HealthStatus::Down
    } else if check == HealthStatus::Degraded && overall != HealthStatus::Down {
        HealthStatus::Degraded
    } else {
        overall
    }
}

/// The overall status of a report that starts up and takes each check in turn.
pub open spec fn combine_all(statuses: Seq<HealthStatus>) -> HealthStatus
    decreases statuses.len(),
{
    if statuses.len() == 0 {
        HealthStatus::Up
    } else {
        combine(combine_all(statuses.drop_last()), statuses.last())
    }
}

/// A report is down exactly when some check is down; else degraded exactly
/// when some check is degraded; else up.
pub proof fn lemma_combine_all(statuses: Seq<HealthStatus>)
    ensures
        (combine_all(statuses) == HealthStatus::Down) <==> statuses.contains(HealthStatus::Down),
        !statuses.contains(HealthStatus::Down) ==> ((combine_all(statuses) == HealthStatus::Degraded)
            <==> statuses.contains(HealthStatus::Degraded)),
        !statuses.contains(HealthStatus::Down) && !statuses.contains(HealthStatus::Degraded)
            ==> combine_all(statuses) == HealthStatus::Up,
    decreases statuses.len(),
{
    if statuses.len() > 0 {
        let init = statuses.drop_last();
        lemma_combine_all(init);
        assert(statuses =~= init.push(statuses.last()));
        if init.contains(HealthStatus::Down) {
            let i = choose|i: int| 0 <= i < init.len() && init[i] == HealthStatus::Down;
            assert(statuses[i] == HealthStatus::Down);
        }
        if init.contains(HealthStatus::Degraded) {
            let i = choose|i: int| 0 <= i < init.len() && init[i] == HealthStatus::Degraded;
            assert(statuses[i] == HealthStatus::Degraded);
        }
        if statuses.contains(HealthStatus::Down) {
            let i = choose|i: int| 0 <= i < statuses.len() && statuses[i] == HealthStatus::Down;
            if i < init.len() {
                assert(init[i] == HealthStatus::Down);
            }
        }
        if statuses.contains(HealthStatus::Degraded) {
            let i = choose|i: int| 0 <= i < statuses.len() && statuses[i] == HealthStatus::Degraded;
            if i < init.len() {
                assert(init[i] == HealthStatus::Degraded);
            }
        }
    }
}

/// Aggregated health report.
pub struct HealthReport {
    pub status: HealthStatus,
    pub timestamp: String,
    pub version: Option<String>,
    pub uptime_seconds: Option<u64>,
    pub checks: StrMap<HealthCheckResult>,
}

impl HealthReport {
    pub open spec fn wf(&self) -> bool {
        self.checks.wf()
    }

    /// An empty report, up, stamped now.
    pub fn new() -> (res: Self)
        ensures
            res.wf(),
            res.status == HealthStatus::Up,
            res.version is None,
            res.uptime_seconds is None,
            res.checks.seq().len() == 0,
    {
        HealthReport {
            status: HealthStatus::Up,
            timestamp: now_rfc3339(),
            version: None,
            uptime_seconds: None,
            checks: StrMap::new(),
        }
    }

    /// Add a check result (replacing one of the same name) and combine its
    /// status into the overall one.
    pub fn with_check(self, result: HealthCheckResult) -> (res: Self)
        requires
            self.wf(),
        ensures
            res.wf(),
            res.status == combine(self.status, result.status),
            res.checks.to_map() == self.checks.to_map().insert(result.name@, result),
            res.version == self.version,
            res.uptime_seconds == self.uptime_seconds,
    {
        let mut r = self;
        if result.status == HealthStatus::Down {
            r.status = HealthStatus::Down;
        } else if result.status == HealthStatus::Degraded && r.status != HealthStatus::Down {
            r.status = HealthStatus::Degraded;
        }
        let name = result.name.clone();
        r.checks.insert(name, result);
        r
    }

    /// Set the application version.
    pub fn with_version(self, version: &str) -> (res: Self)
        ensures
            res.version matches Some(v) && v@ == version@,
            res.status == self.status,
            res.checks == self.checks,
            res.uptime_seconds == self.uptime_seconds,
    {
        let mut r = self;
        r.version = Some(owned(version));
        r
    }

    /// Set the uptime.
    pub fn with_uptime(self, uptime: Duration) -> (res: Self)
        ensures
            res.uptime_seconds == Some(uptime.secs),
            res.status == self.status,
            res.checks == self.checks,
            res.version == self.version,
    {
        let mut r = self;
        r.uptime_seconds = Some(uptime.as_secs());
        r
    }

    /// The HTTP status of the full report: 200 when healthy, else 503.
    pub fn http_status(&self) -> (res: u16)
        ensures
            res == if self.status.spec_healthy() { 200u16 } else { 503u16 },
    {
        if self.status.is_healthy() {
            200
        } else {
            503
        }
    }

    /// The default report (that of `new`).
    pub fn default() -> (res: Self)
        ensures
            res.wf(),
            res.status == HealthStatus::Up,
            res.version is None,
            res.uptime_seconds is None,
            res.checks.seq().len() == 0,
    {
        Self::new()
    }
}

/// Configuration for health check middleware.
pub struct HealthCheckConfig {
    /// Base path for health endpoints
    pub base_path: String,
    /// Include detailed check results
    pub include_details: bool,
    /// Include system information
    pub include_system_info: bool,
    /// Application version
    pub version: Option<String>,
    /// Timeout for health checks
    pub timeout: Duration,
    /// Cache health check results
    pub cache_duration: Option<Duration>,
}

impl HealthCheckConfig {
    /// The defaults: `/health`, details, no system information, no version, a
    /// 5 s timeout, results cached for 5 s.
    pub open spec fn is_default(&self) -> bool {
        &&& self.base_path@ == "/health"@
        &&& self.include_details
        &&& !self.include_system_info
        &&& self.version is None
        &&& self.timeout.secs == 5 && self.timeout.nanos == 0
        &&& self.cache_duration matches Some(d) && d.secs == 5 && d.nanos == 0
    }

    /// The default configuration.
    pub fn default() -> (res: Self)
        ensures
            res.is_default(),
    {
        HealthCheckConfig {
            base_path: String::from_str("/health"),
            include_details: true,
            include_system_info: false,
            version: None,
            timeout: Duration::from_secs(5),
            cache_duration: Some(Duration::from_secs(5)),
        }
    }

    /// The default configuration.
    pub fn new() -> (res: Self)
        ensures
            res.is_default(),
    {
        Self::default()
    }

    /// Set the base path.
    pub fn with_path(self, path: &str) -> (res: Self)
        ensures
            res.base_path@ == path@,
            res == (HealthCheckConfig { base_path: res.base_path, ..self }),
    {
        let mut c = self;
        c.base_path = owned(path);
        c
    }

    /// Include detailed check results or not.
    pub fn with_details(self, enabled: bool) -> (res: Self)
        ensures
            res == (HealthCheckConfig { include_details: enabled, ..self }),
    {
        let mut c = self;
        c.include_details = enabled;
        c
    }

    /// Include system information or not.
    pub fn with_system_info(self, enabled: bool) -> (res: Self)
        ensures
            res == (HealthCheckConfig { include_system_info: enabled, ..self }),
    {
        let mut c = self;
        c.include_system_info = enabled;
        c
    }

    /// Set the application version.
    pub fn with_version(self, version: &str) -> (res: Self)
        ensures
            res.version matches Some(v) && v@ == version@,
            res == (HealthCheckConfig { version: res.version, ..self }),
    {
        let mut c = self;
        c.version = Some(owned(version));
        c
    }

    /// Set the timeout.
    pub fn with_timeout(self, timeout: Duration) -> (res: Self)
        ensures
            res == (HealthCheckConfig { timeout, ..self }),
    {
        let mut c = self;
        c.timeout = timeout;
        c
    }
}

/// The probe a health path asks for.
#[derive(Debug, Clone, Copy, PartialEq, Eq, Structural)]
pub enum HealthEndpoint {
    Liveness,
    Readiness,
    Startup,
    Full,
}

/// Health check middleware: which probe a path asks for, and readiness.
pub struct HealthCheckMiddleware {
    pub config: HealthCheckConfig,
    pub ready: bool,
}

impl HealthCheckMiddleware {
    /// The probe a path asks for: `base/live` or `base/liveness`, `base/ready` or
    /// `base/readiness`, `base/startup`, `base` or `base/`.
    pub open spec fn spec_endpoint(&self, path: Seq<char>) -> Option<HealthEndpoint> {
        let base = self.config.base_path@;
        if !is_prefix(base, path) {
            None
        } else if path == base + "/live"@ || path == base + "/liveness"@ {
            Some(HealthEndpoint::Liveness)
        } else if path == base + "/ready"@ || path == base + "/readiness"@ {
            Some(HealthEndpoint::Readiness)
        } else if path == base + "/startup"@ {
            Some(HealthEndpoint::Startup)
        } else if path == base || path == base + "/"@ {
            Some(HealthEndpoint::Full)
        } else {
            None
        }
    }

    /// A middleware with the given configuration, ready.
    pub fn new(config: HealthCheckConfig) -> (res: Self)
        ensures
            res.config == config,
            res.ready,
    {
        HealthCheckMiddleware { config, ready: true }
    }

    /// Set readiness.
    pub fn set_ready(&mut self, ready: bool)
        ensures
            final(self).ready == ready,
            final(self).config == old(self).config,
    {
        self.ready = ready;
    }

    /// Whether the application is ready.
    pub fn is_ready(&self) -> (res: bool)
        ensures
            res == self.ready,
    {
        self.ready
    }

    /// Whether `path` is `base` followed by `suffix`.
    fn is_base_plus(&self, path: &str, suffix: &str) -> (res: bool)
        ensures
            res == (path@ == self.config.base_path@ + suffix@),
    {
        let mut p = self.config.base_path.clone();
        p.append(suffix);
        str_eq(path, p.as_str())
    }

    /// The probe a path asks for, if any.
    pub fn endpoint(&self, path: &str) -> (res: Option<HealthEndpoint>)
        ensures
            res == self.spec_endpoint(path@),
    {
        if !str_starts_with(path, self.config.base_path.as_str()) {
            return None;
        }
        if self.is_base_plus(path, "/live") || self.is_base_plus(path, "/liveness") {
            Some(HealthEndpoint::Liveness)
        } else if self.is_base_plus(path, "/ready") || self.is_base_plus(path, "/readiness") {
            Some(HealthEndpoint::Readiness)
        } else if self.is_base_plus(path, "/startup") {
            Some(HealthEndpoint::Startup)
        } else if str_eq(path, self.config.base_path.as_str()) || self.is_base_plus(path, "/") {
            Some(HealthEndpoint::Full)
        } else {
            None
        }
    }

    /// The readiness answer: up with 200 when ready, down with 503 otherwise.
    pub fn readiness(&self) -> (res: (HealthStatus, u16))
        ensures
            res == if self.ready { (HealthStatus::Up, 200u16) } else { (HealthStatus::Down, 503u16) },
    {
        if self.ready {
            (HealthStatus::Up, 200)
        } else {
            (HealthStatus::Down, 503)
        }
    }

    /// Whether this middleware answers a path that no route matches.
    pub fn serves_unrouted(&self, path: &str) -> (res: bool)
        ensures
            res == (path@ == self.config.base_path@ || is_prefix(self.config.base_path@ + "/"@, path@)),
    {
        if str_eq(path, self.config.base_path.as_str()) {
            return true;
        }
        let mut p = self.config.base_path.clone();
        p.append("/");
        str_starts_with(path, p.as_str())
    }

    /// Runs very early.
    pub fn priority(&self) -> (res: i32)
        ensures
            res == -400,
    {
        -400
    }

    /// The middleware's name.
    pub fn name(&self) -> (res: &'static str)
        ensures
            res@ == "health_check"@,
    {
        "health_check"
    }
}

/// The probe paths under the configured base: `/live` and `/liveness` ask for
/// liveness, `/ready` and `/readiness` for readiness, `/startup` for the
/// startup probe, and the base itself (with or without a trailing `/`) for
/// the full report; a path that does not start with the base asks for
/// nothing.
pub proof fn lemma_probe_paths(h: HealthCheckMiddleware, other: Seq<char>)
    ensures
        !is_prefix(h.config.base_path@, other) ==> h.spec_endpoint(other) is None,
        ({
            let base = h.config.base_path@;
            &&& h.spec_endpoint(base + "/live"@) == Some(HealthEndpoint::Liveness)
            &&& h.spec_endpoint(base + "/liveness"@) == Some(HealthEndpoint::Liveness)
            &&& h.spec_endpoint(base + "/ready"@) == Some(HealthEndpoint::Readiness)
            &&& h.spec_endpoint(base + "/readiness"@) == Some(HealthEndpoint::Readiness)
            &&& h.spec_endpoint(base + "/startup"@) == Some(HealthEndpoint::Startup)
            &&& h.spec_endpoint(base) == Some(HealthEndpoint::Full)
            &&& h.spec_endpoint(base + "/"@) == Some(HealthEndpoint::Full)
        }),
{
    let base = h.config.base_path@;
    reveal_strlit("/live");
    reveal_strlit("/liveness");
    reveal_strlit("/ready");
    reveal_strlit("/readiness");
    reveal_strlit("/startup");
    reveal_strlit("/");
    assert((base + "/live"@).subrange(0, base.len() as int) =~= base);
    assert((base + "/liveness"@).subrange(0, base.len() as int) =~= base);
    assert((base + "/ready"@).subrange(0, base.len() as int) =~= base);
    assert((base + "/readiness"@).subrange(0, base.len() as int) =~= base);
    assert((base + "/startup"@).subrange(0, base.len() as int) =~= base);
    assert((base + "/"@).subrange(0, base.len() as int) =~= base);
    assert(is_prefix(base, base)) by { assert(base.subrange(0, base.len() as int) =~= base); }
    assert((base + "/live"@).len() == base.len() + 5);
    assert((base + "/liveness"@).len() == base.len() + 9);
    assert((base + "/ready"@).len() == base.len() + 6);
    assert((base + "/readiness"@).len() == base.len() + 10);
    assert((base + "/startup"@).len() == base.len() + 8);
    assert((base + "/"@).len() == base.len() + 1);
}

} // verus!
