//! The decisions of the metrics middleware: which requests are measured, the
//! label values each measurement carries (with a bound on how many distinct
//! paths get a label of their own), and when the metrics page is served.  The
//! counters and histograms themselves are kept by the caller.
use vstd::prelude::*;
use crate::http::{Request, Response};
use crate::pathmatch::skip_match;
use crate::strmap::StrMap;
use crate::text::{dec, owned, str_eq, u64_to_string, views};

verus! {

/// Metrics middleware configuration (the histogram buckets are kept with the
/// histograms).
pub struct PrometheusConfig {
    pub endpoint: String,
    pub namespace: String,
    pub subsystem: String,
    pub exclude_paths: Vec<String>,
    pub track_body_size: bool,
    pub track_method: bool,
    pub track_path: bool,
    pub track_status: bool,
    /// How many distinct paths get a label of their own.
    pub max_path_cardinality: usize,
}

impl PrometheusConfig {
    /// Endpoint `/metrics`, namespace `cello`, subsystem `http`, `/metrics`
    /// and `/health` excluded, every label and body sizes tracked, at most
    /// 100 path labels.
    pub fn new() -> (res: Self)
        ensures
            res.endpoint@ == "/metrics"@,
            res.namespace@ == "cello"@,
            res.subsystem@ == "http"@,
            views(res.exclude_paths@) == seq!["/metrics"@, "/health"@],
            res.track_body_size && res.track_method && res.track_path && res.track_status,
            res.max_path_cardinality == 100,
    {
        let v = vec![String::from_str("/metrics"), String::from_str("/health")];
        assert(views(v@) =~= seq!["/metrics"@, "/health"@]);
        PrometheusConfig {
            endpoint: String::from_str("/metrics"),
            namespace: String::from_str("cello"),
            subsystem: String::from_str("http"),
            exclude_paths: v,
            track_body_size: true,
            track_method: true,
            track_path: true,
            track_status: true,
            max_path_cardinality: 100,
        }
    }

    /// Set the metrics endpoint.
    pub fn endpoint(self, endpoint: &str) -> (res: Self)
        ensures
            res.endpoint@ == endpoint@,
            res.namespace == self.namespace,
            res.subsystem == self.subsystem,
            res.exclude_paths == self.exclude_paths,
    {
        let mut c = self;
        c.endpoint = owned(endpoint);
        c
    }

    /// Set the namespace.
    pub fn namespace(self, namespace: &str) -> (res: Self)
        ensures
            res.namespace@ == namespace@,
            res.endpoint == self.endpoint,
            res.subsystem == self.subsystem,
            res.exclude_paths == self.exclude_paths,
    {
        let mut c = self;
        c.namespace = owned(namespace);
        c
    }

    /// Set the subsystem.
    pub fn subsystem(self, subsystem: &str) -> (res: Self)
        ensures
            res.subsystem@ == subsystem@,
            res.endpoint == self.endpoint,
            res.namespace == self.namespace,
            res.exclude_paths == self.exclude_paths,
    {
        let mut c = self;
        c.subsystem = owned(subsystem);
        c
    }

    /// Exclude paths under `path` from metrics.
    pub fn exclude_path(self, path: &str) -> (res: Self)
        ensures
            views(res.exclude_paths@) == views(self.exclude_paths@).push(path@),
            res.endpoint == self.endpoint,
            res.namespace == self.namespace,
            res.subsystem == self.subsystem,
    {
        let mut c = self;
        c.exclude_paths.push(owned(path));
        assert(views(c.exclude_paths@) =~= views(self.exclude_paths@).push(path@));
        c
    }

    /// Whether body sizes are measured.
    pub fn track_body_size(self, enabled: bool) -> (res: Self)
        ensures
            res.track_body_size == enabled,
            res.endpoint == self.endpoint,
            res.exclude_paths == self.exclude_paths,
    {
        let mut c = self;
        c.track_body_size = enabled;
        c
    }

    /// The full name of a metric: `<namespace>_<subsystem>_<suffix>`.
    pub fn metric_name(&self, suffix: &str) -> (res: String)
        ensures
            res@ == self.namespace@ + "_"@ + self.subsystem@ + "_"@ + suffix@,
    {
        let mut s = self.namespace.clone();
        s.append("_");
        s.append(self.subsystem.as_str());
        s.append("_");
        s.append(suffix);
        s
    }

    /// The label names of the measurements: `method`, `path` and (when asked
    /// and tracked) `status`, each when tracked.
    pub fn label_names(&self, with_status: bool) -> (res: Vec<&'static str>)
        ensures
            crate::text::ref_views(res@) == label_names_of(*self, with_status),
    {
        let mut v: Vec<&'static str> = Vec::new();
        if self.track_method {
            v.push("method");
        }
        if self.track_path {
            v.push("path");
        }
        if with_status && self.track_status {
            v.push("status");
        }
        assert(crate::text::ref_views(v@) =~= label_names_of(*self, with_status));
        v
    }
}

/// The label names of a configuration.
pub open spec fn label_names_of(c: PrometheusConfig, with_status: bool) -> Seq<Seq<char>> {
    (if c.track_method { seq!["method"@] } else { Seq::empty() })
        + (if c.track_path { seq!["path"@] } else { Seq::empty() })
        + (if with_status && c.track_status { seq!["status"@] } else { Seq::empty() })
}

/// What the middleware does before the handler.
pub enum MetricsStep {
    /// The request is for the metrics page: serve it.
    ServeMetrics,
    /// The path is excluded: measure nothing.
    Skip,
    /// Count the request as in progress under these labels, and record its
    /// body size when there is one.
    Track { in_progress_labels: Vec<String>, request_size: Option<usize> },
}

/// What the middleware records after the handler.
pub struct MetricsRecord {
    /// Labels of the request count, duration and response size.
    pub labels: Vec<String>,
    /// Labels of the in-progress gauge to decrement.
    pub in_progress_labels: Vec<String>,
    /// The response size to record, when body sizes are tracked.
    pub response_size: Option<usize>,
}

/// Whether a path falls under an excluded path.
pub open spec fn excluded(c: PrometheusConfig, path: Seq<char>) -> bool {
    exists|i: int| 0 <= i < c.exclude_paths@.len() && skip_match(path, #[trigger] c.exclude_paths@[i]@)
}

/// The metrics middleware's state: its configuration and the paths that have
/// a label of their own.
pub struct PrometheusMiddleware {
    pub config: PrometheusConfig,
    pub path_cache: StrMap<String>,
}

impl PrometheusMiddleware {
    /// The labelled paths never outnumber the limit.
    pub open spec fn wf(&self) -> bool {
        self.path_cache.wf() && self.path_cache.seq().len() <= self.config.max_path_cardinality
    }

    /// The label a path gets with the labelled paths `cache`: its own when it
    /// has one or there is room for one more, else `OTHER`.
    pub open spec fn path_label(cache: StrMap<String>, limit: usize, path: Seq<char>) -> Seq<char> {
        if cache.to_map().dom().contains(path) {
            cache.to_map()[path]@
        } else if cache.seq().len() >= limit {
            "OTHER"@
        } else {
            path
        }
    }

    /// Middleware with the default configuration and no labelled paths.
    pub fn new() -> (res: Self)
        ensures
            res.wf(),
            res.path_cache.seq().len() == 0,
            res.config.endpoint@ == "/metrics"@,
            res.config.max_path_cardinality == 100,
    {
        PrometheusMiddleware { config: PrometheusConfig::new(), path_cache: StrMap::new() }
    }

    /// Middleware with a configuration and no labelled paths.
    pub fn with_config(config: PrometheusConfig) -> (res: Self)
        ensures
            res.wf(),
            res.path_cache.seq().len() == 0,
            res.config == config,
    {
        PrometheusMiddleware { config, path_cache: StrMap::new() }
    }

    /// The metrics endpoint.
    pub fn endpoint(&self) -> (res: &str)
        ensures
            res@ == self.config.endpoint@,
    {
        self.config.endpoint.as_str()
    }

    /// Whether a path is excluded from metrics.
    pub fn should_exclude(&self, path: &str) -> (res: bool)
        ensures
            res == excluded(self.config, path@),
    {
        crate::pathmatch::matches_any(path, &self.config.exclude_paths)
    }

    /// The label of a path: the path itself while fewer than the limit of
    /// paths are labelled (the path is then remembered), `OTHER` after.
    pub fn normalize_path(&mut self, path: &str) -> (res: String)
        requires
            old(self).wf(),
        ensures
            final(self).wf(),
            final(self).config == old(self).config,
            res@ == Self::path_label(old(self).path_cache, old(self).config.max_path_cardinality, path@),
            if !old(self).path_cache.to_map().dom().contains(path@)
                && old(self).path_cache.seq().len() < old(self).config.max_path_cardinality {
                final(self).path_cache.to_map().map_values(|v: String| v@)
                    == old(self).path_cache.to_map().map_values(|v: String| v@).insert(path@, path@)
            } else {
                final(self).path_cache == old(self).path_cache
            },
    {
        match self.path_cache.get(path) {
            Some(n) => {
                return n.clone();
            },
            None => {},
        }
        if self.path_cache.len() >= self.config.max_path_cardinality {
            return String::from_str("OTHER");
        }
        let normalized = owned(path);
        self.path_cache.insert(owned(path), normalized.clone());
        assert(self.path_cache.to_map().map_values(|v: String| v@)
            =~= old(self).path_cache.to_map().map_values(|v: String| v@).insert(path@, path@));
        normalized
    }

    /// The label values for a request: its method, its path label and its
    /// status, each when tracked.
    pub fn build_labels(&mut self, method: &str, path: &str, status: u16) -> (res: Vec<String>)
        requires
            old(self).wf(),
        ensures
            final(self).wf(),
            final(self).config == old(self).config,
            views(res@) == (if old(self).config.track_method { seq![method@] } else { Seq::empty() })
                + (if old(self).config.track_path {
                    seq![Self::path_label(old(self).path_cache, old(self).config.max_path_cardinality, path@)]
                } else {
                    Seq::empty()
                })
                + (if old(self).config.track_status { seq![dec(status as nat)] } else { Seq::empty() }),
            !old(self).config.track_path ==> final(self).path_cache == old(self).path_cache,
    {
        let mut labels: Vec<String> = Vec::new();
        if self.config.track_method {
            labels.push(owned(method));
        }
        if self.config.track_path {
            let p = self.normalize_path(path);
            labels.push(p);
        }
        if self.config.track_status {
            labels.push(u64_to_string(status as u64));
        }
        assert(views(labels@) =~= (if old(self).config.track_method { seq![method@] } else { Seq::empty() })
            + (if old(self).config.track_path {
                seq![Self::path_label(old(self).path_cache, old(self).config.max_path_cardinality, path@)]
            } else {
                Seq::empty()
            })
            + (if old(self).config.track_status { seq![dec(status as nat)] } else { Seq::empty() }));
        labels
    }

    /// The page of metrics, from the encoder's text or its error.
    pub fn metrics_page(encoded: Result<String, String>) -> (res: Response)
        ensures
            res.wf(),
            match encoded {
                Ok(text) => res.status == 200 && res.body@ == vstd::utf8::encode_utf8(text@)
                    && res.header_map() == map!["Content-Type"@ => "text/plain; version=0.0.4"@],
                Err(e) => res.status == 500 && res.body@ == vstd::utf8::encode_utf8("Error encoding metrics: "@ + e@)
                    && res.header_map() == Map::<Seq<char>, Seq<char>>::empty(),
            },
    {
        match encoded {
            Ok(text) => {
                let mut r = Response::new(200);
                r.headers.insert(String::from_str("Content-Type"), String::from_str("text/plain; version=0.0.4"));
                r.set_body(vstd::slice::slice_to_vec(text.as_str().as_bytes()));
                assert(r.header_map() =~= map!["Content-Type"@ => "text/plain; version=0.0.4"@]);
                r
            },
            Err(e) => {
                let mut r = Response::new(500);
                let mut m = String::from_str("Error encoding metrics: ");
                m.append(e.as_str());
                r.set_body(vstd::slice::slice_to_vec(m.as_str().as_bytes()));
                r
            },
        }
    }

    /// The metrics page when `path` is the metrics endpoint (the page is made
    /// from the encoder's text or error).
    pub fn try_serve(&self, path: &str, encoded: Result<String, String>) -> (res: Option<Response>)
        ensures
            path@ != self.config.endpoint@ ==> res is None,
            path@ == self.config.endpoint@ ==> (res matches Some(r) && r.wf() && match encoded {
                Ok(text) => r.status == 200 && r.body@ == vstd::utf8::encode_utf8(text@),
                Err(e) => r.status == 500 && r.body@ == vstd::utf8::encode_utf8("Error encoding metrics: "@ + e@),
            }),
    {
        if self.is_metrics_path(path) {
            Some(Self::metrics_page(encoded))
        } else {
            None
        }
    }

    /// Whether `path` is the metrics page.
    pub fn is_metrics_path(&self, path: &str) -> (res: bool)
        ensures
            res == (path@ == self.config.endpoint@),
    {
        str_eq(path, self.config.endpoint.as_str())
    }

    /// Before the handler: serve the metrics page, skip an excluded path, or
    /// count the request as in progress.
    pub fn before(&mut self, request: &Request) -> (res: MetricsStep)
        requires
            old(self).wf(),
        ensures
            final(self).wf(),
            final(self).config == old(self).config,
            request.path@ == old(self).config.endpoint@ ==> res is ServeMetrics,
            request.path@ != old(self).config.endpoint@ && excluded(old(self).config, request.path@) ==> res is Skip,
            request.path@ != old(self).config.endpoint@ && !excluded(old(self).config, request.path@) ==> (res matches MetricsStep::Track { in_progress_labels, request_size } && {
                &&& views(in_progress_labels@) == (if old(self).config.track_method { seq![request.method@] } else { Seq::empty() })
                    + (if old(self).config.track_path {
                        seq![Self::path_label(old(self).path_cache, old(self).config.max_path_cardinality, request.path@)]
                    } else {
                        Seq::empty()
                    })
                &&& request_size == if old(self).config.track_body_size && request.body@.len() > 0 {
                    Some(request.body@.len() as usize)
                } else {
                    None::<usize>
                }
            }),
    {
        if self.is_metrics_path(request.path.as_str()) {
            return MetricsStep::ServeMetrics;
        }
        if self.should_exclude(request.path.as_str()) {
            return MetricsStep::Skip;
        }
        let mut labels = self.build_labels(request.method.as_str(), request.path.as_str(), 0);
        let ghost full = views(labels@);
        if self.config.track_status {
            labels.pop();
            assert(views(labels@) =~= full.drop_last());
        }
        let ghost lv = views(labels@);
        let request_size = if self.config.track_body_size && request.body.len() > 0 {
            Some(request.body.len())
        } else {
            None
        };
        proof {
            assert(lv =~= (if old(self).config.track_method { seq![request.method@] } else { Seq::empty() })
                + (if old(self).config.track_path {
                    seq![Self::path_label(old(self).path_cache, old(self).config.max_path_cardinality, request.path@)]
                } else {
                    Seq::empty()
                }));
        }
        MetricsStep::Track { in_progress_labels: labels, request_size }
    }

    /// After the handler: what to record, unless the path is excluded.
    pub fn after(&mut self, request: &Request, response: &Response) -> (res: Option<MetricsRecord>)
        requires
            old(self).wf(),
        ensures
            final(self).wf(),
            final(self).config == old(self).config,
            excluded(old(self).config, request.path@) ==> res is None,
            !excluded(old(self).config, request.path@) ==> (res matches Some(r) && {
                let full = (if old(self).config.track_method { seq![request.method@] } else { Seq::empty() })
                    + (if old(self).config.track_path {
                        seq![Self::path_label(old(self).path_cache, old(self).config.max_path_cardinality, request.path@)]
                    } else {
                        Seq::empty()
                    })
                    + (if old(self).config.track_status { seq![dec(response.status as nat)] } else { Seq::empty() });
                &&& views(r.labels@) == full
                &&& views(r.in_progress_labels@) == if full.len() > 0 { full.drop_last() } else { full }
                &&& r.response_size == if old(self).config.track_body_size {
                    Some(response.body@.len() as usize)
                } else {
                    None::<usize>
                }
            }),
    {
        if self.should_exclude(request.path.as_str()) {
            return None;
        }
        let labels = self.build_labels(request.method.as_str(), request.path.as_str(), response.status);
        let mut in_progress: Vec<String> = Vec::new();
        let n = if labels.len() > 0 { labels.len() - 1 } else { 0 };
        let mut i: usize = 0;
        while i < n
            invariant
                n <= labels@.len(),
                i <= n,
                views(in_progress@) == views(labels@).subrange(0, i as int),
            decreases n - i,
        {
            let ghost before = in_progress@;
            in_progress.push(labels[i].clone());
            assert(views(in_progress@) =~= views(before).push(labels@[i as int]@));
            i = i + 1;
            assert(views(in_progress@) =~= views(labels@).subrange(0, i as int));
        }
        proof {
            if labels@.len() > 0 {
                assert(views(labels@).subrange(0, n as int) =~= views(labels@).drop_last());
            } else {
                assert(views(labels@).subrange(0, n as int) =~= views(labels@));
            }
        }
        let response_size = if self.config.track_body_size { Some(response.body.len()) } else { None };
        Some(MetricsRecord { labels, in_progress_labels: in_progress, response_size })
    }

    /// Runs first.
    pub fn priority(&self) -> (res: i32)
        ensures
            res == -200,
    {
        -200
    }

    /// The middleware's name.
    pub fn name(&self) -> (res: &'static str)
        ensures
            res@ == "prometheus"@,
    {
        "prometheus"
    }
}

} // verus!
