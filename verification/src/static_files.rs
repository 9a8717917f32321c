//! Static file serving: cache-control values, content types by extension,
//! which request paths map to which files (and which are refused), and the
//! responses built from a file's metadata and contents.
use vstd::prelude::*;
use vstd::string::*;
use crate::cors::set_hdr;
use crate::crypto::{append_hex_num, hex_num};
use crate::http::{Request, Response};
use crate::strmap::StrMap;
use crate::text::{
    append_u64, chars_of, contains_sub, dec, is_prefix, owned, parse_u64, parse_uint, split_char, split_str,
    str_contains, str_eq, str_has_char, str_starts_with, str_trim, strip_char_end, strip_prefix_all,
    to_lowercase, trim, trim_end_char, trim_start_matches, u64_to_string, unicode_lowercase, views,
};
use crate::time::Duration;

verus! {

// ============================================================================
// Cache control
// ============================================================================

/// Cache control directive.
#[derive(Clone, Debug)]
pub enum CacheControl {
    /// No caching
    NoCache,
    /// No store (don't persist)
    NoStore,
    /// Private cache only
    Private(Duration),
    /// Public cache with max-age
    Public(Duration),
    /// Must revalidate
    MustRevalidate(Duration),
    /// Immutable (for versioned assets)
    Immutable(Duration),
    /// Custom header value
    Custom(String),
}

/// The seconds a duration suffix stands for.
pub open spec fn unit_secs(c: char) -> Option<nat> {
    if c == 'y' {
        Some(31536000)
    } else if c == 'd' {
        Some(86400)
    } else if c == 'h' {
        Some(3600)
    } else if c == 'm' {
        Some(60)
    } else if c == 's' {
        Some(1)
    } else {
        None
    }
}

/// The number a string parses to as a `u64`, or 0.
pub open spec fn u64_or_zero(s: Seq<char>) -> nat {
    match parse_uint(s, u64::MAX as nat) {
        Some(n) => n,
        None => 0,
    }
}

/// The seconds a duration string (`1y`, `30d`, `1h`, `30m`, `60s`, or a bare
/// number) stands for, after trimming; an empty or unparsable number counts 0.
pub open spec fn duration_secs(s: Seq<char>) -> nat {
    let t = trim(s);
    if t.len() == 0 {
        0
    } else {
        match unit_secs(t.last()) {
            Some(m) => u64_or_zero(t.drop_last()) * m,
            None => u64_or_zero(t),
        }
    }
}

/// Parse a duration string (e.g., "1y", "30d", "1h", "30m", "60s").
pub fn parse_duration_str(s: &str) -> (res: Duration)
    requires
        // the split before the unit is at a byte offset, which needs a one-byte
        // last character
        trim(s@).len() > 0 ==> (trim(s@).last() as u32) < 128,
        duration_secs(s@) <= u64::MAX,
    ensures
        res.secs == duration_secs(s@),
        res.nanos == 0,
{
    let t = str_trim(s);
    let v = chars_of(t.as_str());
    if v.len() == 0 {
        return Duration::from_secs(0);
    }
    let n = v.len();
    let unit = v[n - 1];
    let num_str = crate::text::string_of_range(&v, 0, n - 1);
    assert(num_str@ =~= t@.drop_last());
    let num: u64 = match parse_u64(num_str.as_str()) {
        Some(x) => x,
        None => 0,
    };
    let mult: u64 = if unit == 'y' {
        31536000
    } else if unit == 'd' {
        86400
    } else if unit == 'h' {
        3600
    } else if unit == 'm' {
        60
    } else if unit == 's' {
        1
    } else {
        let whole: u64 = match parse_u64(t.as_str()) {
            Some(x) => x,
            None => 0,
        };
        return Duration::from_secs(whole);
    };
    Duration::from_secs(num * mult)
}

impl CacheControl {
    /// The `Cache-Control` header value.
    pub open spec fn spec_value(&self) -> Seq<char> {
        match self {
            CacheControl::NoCache => "no-cache"@,
            CacheControl::NoStore => "no-store"@,
            CacheControl::Private(d) => "private, max-age="@ + dec(d.secs as nat),
            CacheControl::Public(d) => "public, max-age="@ + dec(d.secs as nat),
            CacheControl::MustRevalidate(d) => "public, max-age="@ + dec(d.secs as nat) + ", must-revalidate"@,
            CacheControl::Immutable(d) => "public, max-age="@ + dec(d.secs as nat) + ", immutable"@,
            CacheControl::Custom(s) => s@,
        }
    }

    /// Public caching for a duration string (e.g., "1y").
    pub fn from_str(s: &str) -> (res: Self)
        requires
            trim(s@).len() > 0 ==> (trim(s@).last() as u32) < 128,
            duration_secs(s@) <= u64::MAX,
        ensures
            res matches CacheControl::Public(d) && d.secs == duration_secs(s@) && d.nanos == 0,
    {
        CacheControl::Public(parse_duration_str(s))
    }

    /// Build the `Cache-Control` header value.
    pub fn to_header_value(&self) -> (res: String)
        ensures
            res@ == self.spec_value(),
    {
        match self {
            CacheControl::NoCache => String::from_str("no-cache"),
            CacheControl::NoStore => String::from_str("no-store"),
            CacheControl::Private(d) => {
                let mut s = String::from_str("private, max-age=");
                append_u64(&mut s, d.as_secs());
                s
            },
            CacheControl::Public(d) => {
                let mut s = String::from_str("public, max-age=");
                append_u64(&mut s, d.as_secs());
                s
            },
            CacheControl::MustRevalidate(d) => {
                let mut s = String::from_str("public, max-age=");
                append_u64(&mut s, d.as_secs());
                s.append(", must-revalidate");
                s
            },
            CacheControl::Immutable(d) => {
                let mut s = String::from_str("public, max-age=");
                append_u64(&mut s, d.as_secs());
                s.append(", immutable");
                s
            },
            CacheControl::Custom(s) => s.clone(),
        }
    }

    /// The default: public for a day.
    pub fn default() -> (res: Self)
        ensures
            res matches CacheControl::Public(d) && d.secs == 86400,
    {
        CacheControl::Public(Duration::from_secs(86400))
    }
}

// ============================================================================
// Content types
// ============================================================================

/// The content type for a lowercase file extension.
pub open spec fn mime_for(e: Seq<char>) -> Seq<char> {
    if e == "html"@ || e == "htm"@ { "text/html; charset=utf-8"@ }
    else if e == "css"@ { "text/css; charset=utf-8"@ }
    else if e == "js"@ || e == "mjs"@ { "text/javascript; charset=utf-8"@ }
    else if e == "json"@ { "application/json; charset=utf-8"@ }
    else if e == "xml"@ { "application/xml; charset=utf-8"@ }
    else if e == "txt"@ { "text/plain; charset=utf-8"@ }
    else if e == "csv"@ { "text/csv; charset=utf-8"@ }
    else if e == "md"@ { "text/markdown; charset=utf-8"@ }
    else if e == "png"@ { "image/png"@ }
    else if e == "jpg"@ || e == "jpeg"@ { "image/jpeg"@ }
    else if e == "gif"@ { "image/gif"@ }
    else if e == "webp"@ { "image/webp"@ }
    else if e == "svg"@ { "image/svg+xml"@ }
    else if e == "ico"@ { "image/x-icon"@ }
    else if e == "avif"@ { "image/avif"@ }
    else if e == "woff"@ { "font/woff"@ }
    else if e == "woff2"@ { "font/woff2"@ }
    else if e == "ttf"@ { "font/ttf"@ }
    else if e == "otf"@ { "font/otf"@ }
    else if e == "eot"@ { "application/vnd.ms-fontobject"@ }
    else if e == "pdf"@ { "application/pdf"@ }
    else if e == "zip"@ { "application/zip"@ }
    else if e == "gz"@ { "application/gzip"@ }
    else if e == "tar"@ { "application/x-tar"@ }
    else if e == "mp3"@ { "audio/mpeg"@ }
    else if e == "mp4"@ { "video/mp4"@ }
    else if e == "webm"@ { "video/webm"@ }
    else if e == "ogg"@ { "audio/ogg"@ }
    else if e == "wav"@ { "audio/wav"@ }
    else if e == "map"@ { "application/json"@ }
    else { "application/octet-stream"@ }
}

/// The content type for a file extension, in any case.
pub fn mime_type_for_extension(ext: &str) -> (res: &'static str)
    ensures
        res@ == mime_for(unicode_lowercase(ext@)),
{
    let lower = to_lowercase(ext);
    let e = lower.as_str();
    if str_eq(e, "html") || str_eq(e, "htm") { "text/html; charset=utf-8" }
    else if str_eq(e, "css") { "text/css; charset=utf-8" }
    else if str_eq(e, "js") || str_eq(e, "mjs") { "text/javascript; charset=utf-8" }
    else if str_eq(e, "json") { "application/json; charset=utf-8" }
    else if str_eq(e, "xml") { "application/xml; charset=utf-8" }
    else if str_eq(e, "txt") { "text/plain; charset=utf-8" }
    else if str_eq(e, "csv") { "text/csv; charset=utf-8" }
    else if str_eq(e, "md") { "text/markdown; charset=utf-8" }
    else if str_eq(e, "png") { "image/png" }
    else if str_eq(e, "jpg") || str_eq(e, "jpeg") { "image/jpeg" }
    else if str_eq(e, "gif") { "image/gif" }
    else if str_eq(e, "webp") { "image/webp" }
    else if str_eq(e, "svg") { "image/svg+xml" }
    else if str_eq(e, "ico") { "image/x-icon" }
    else if str_eq(e, "avif") { "image/avif" }
    else if str_eq(e, "woff") { "font/woff" }
    else if str_eq(e, "woff2") { "font/woff2" }
    else if str_eq(e, "ttf") { "font/ttf" }
    else if str_eq(e, "otf") { "font/otf" }
    else if str_eq(e, "eot") { "application/vnd.ms-fontobject" }
    else if str_eq(e, "pdf") { "application/pdf" }
    else if str_eq(e, "zip") { "application/zip" }
    else if str_eq(e, "gz") { "application/gzip" }
    else if str_eq(e, "tar") { "application/x-tar" }
    else if str_eq(e, "mp3") { "audio/mpeg" }
    else if str_eq(e, "mp4") { "video/mp4" }
    else if str_eq(e, "webm") { "video/webm" }
    else if str_eq(e, "ogg") { "audio/ogg" }
    else if str_eq(e, "wav") { "audio/wav" }
    else if str_eq(e, "map") { "application/json" }
    else { "application/octet-stream" }
}

// ============================================================================
// Configuration
// ============================================================================

/// Static files middleware configuration.
pub struct StaticFilesConfig {
    /// URL path prefix (e.g., "/static"), without trailing `/`
    pub url_path: String,
    /// Root directory for files
    pub root_dir: String,
    /// Cache control settings
    pub cache_control: CacheControl,
    /// Cache control by extension
    pub cache_by_ext: StrMap<CacheControl>,
    /// Enable ETag generation
    pub etag: bool,
    /// Enable Last-Modified handling
    pub last_modified: bool,
    /// Enable directory listing
    pub dir_listing: bool,
    /// Index file name
    pub index_file: Option<String>,
    /// Enable pre-compressed files (.gz, .br)
    pub precompressed: bool,
    /// Custom headers
    pub custom_headers: StrMap<String>,
    /// Hidden file patterns to block
    pub hidden_patterns: Vec<String>,
}

impl StaticFilesConfig {
    pub open spec fn wf(&self) -> bool {
        self.cache_by_ext.wf() && self.custom_headers.wf()
    }

    /// Create a config serving `root_dir` under `url_path` (trailing `/`
    /// removed): a day of public caching, ETag and Last-Modified on, no
    /// directory listing, `index.html`, pre-compressed files, `.` and `..` hidden.
    pub fn new(url_path: &str, root_dir: &str) -> (res: Self)
        ensures
            res.wf(),
            res.url_path@ == strip_char_end(url_path@, '/'),
            res.root_dir@ == root_dir@,
            res.cache_control matches CacheControl::Public(d) && d.secs == 86400,
            res.cache_by_ext.seq().len() == 0,
            res.etag,
            res.last_modified,
            !res.dir_listing,
            res.index_file matches Some(i) && i@ == "index.html"@,
            res.precompressed,
            res.custom_headers.seq().len() == 0,
            views(res.hidden_patterns@) == seq!["."@, ".."@],
    {
        let hidden_patterns = vec![String::from_str("."), String::from_str("..")];
        assert(views(hidden_patterns@) =~= seq!["."@, ".."@]);
        StaticFilesConfig {
            url_path: owned(trim_end_char(url_path, '/')),
            root_dir: owned(root_dir),
            cache_control: CacheControl::default(),
            cache_by_ext: StrMap::new(),
            etag: true,
            last_modified: true,
            dir_listing: false,
            index_file: Some(String::from_str("index.html")),
            precompressed: true,
            custom_headers: StrMap::new(),
            hidden_patterns,
        }
    }

    /// Set cache control.
    pub fn cache(self, cache_control: CacheControl) -> (res: Self)
        ensures
            res == (StaticFilesConfig { cache_control, ..self }),
    {
        let mut c = self;
        c.cache_control = cache_control;
        c
    }

    /// Set cache control from a duration string (e.g., "1y").
    pub fn cache_str(self, s: &str) -> (res: Self)
        requires
            trim(s@).len() > 0 ==> (trim(s@).last() as u32) < 128,
            duration_secs(s@) <= u64::MAX,
        ensures
            res.cache_control matches CacheControl::Public(d) && d.secs == duration_secs(s@) && d.nanos == 0,
            res == (StaticFilesConfig { cache_control: res.cache_control, ..self }),
    {
        let mut c = self;
        c.cache_control = CacheControl::from_str(s);
        c
    }

    /// Set cache control for a specific extension.
    pub fn cache_ext(self, ext: &str, cache_control: CacheControl) -> (res: Self)
        requires
            self.wf(),
        ensures
            res.wf(),
            res.cache_by_ext.to_map() == self.cache_by_ext.to_map().insert(ext@, cache_control),
            res == (StaticFilesConfig { cache_by_ext: res.cache_by_ext, ..self }),
    {
        let mut c = self;
        c.cache_by_ext.insert(owned(ext), cache_control);
        c
    }

    /// Enable/disable ETag.
    pub fn etag(self, enabled: bool) -> (res: Self)
        ensures
            res == (StaticFilesConfig { etag: enabled, ..self }),
    {
        let mut c = self;
        c.etag = enabled;
        c
    }

    /// Enable/disable Last-Modified handling.
    pub fn last_modified(self, enabled: bool) -> (res: Self)
        ensures
            res == (StaticFilesConfig { last_modified: enabled, ..self }),
    {
        let mut c = self;
        c.last_modified = enabled;
        c
    }

    /// Enable/disable directory listing.
    pub fn dir_listing(self, enabled: bool) -> (res: Self)
        ensures
            res == (StaticFilesConfig { dir_listing: enabled, ..self }),
    {
        let mut c = self;
        c.dir_listing = enabled;
        c
    }

    /// Set the index file.
    pub fn index(self, filename: &str) -> (res: Self)
        ensures
            res.index_file matches Some(i) && i@ == filename@,
            res == (StaticFilesConfig { index_file: res.index_file, ..self }),
    {
        let mut c = self;
        c.index_file = Some(owned(filename));
        c
    }

    /// Disable the index file.
    pub fn no_index(self) -> (res: Self)
        ensures
            res == (StaticFilesConfig { index_file: None, ..self }),
    {
        let mut c = self;
        c.index_file = None;
        c
    }

    /// Enable/disable pre-compressed files.
    pub fn precompressed(self, enabled: bool) -> (res: Self)
        ensures
            res == (StaticFilesConfig { precompressed: enabled, ..self }),
    {
        let mut c = self;
        c.precompressed = enabled;
        c
    }

    /// Add a custom header.
    pub fn header(self, name: &str, value: &str) -> (res: Self)
        requires
            self.wf(),
        ensures
            res.wf(),
            res.custom_headers.to_map().dom() == self.custom_headers.to_map().dom().insert(name@),
            res.custom_headers.to_map()[name@]@ == value@,
            forall|k: Seq<char>| k != name@ ==> #[trigger] res.custom_headers.to_map()[k] == self.custom_headers.to_map()[k],
            res == (StaticFilesConfig { custom_headers: res.custom_headers, ..self }),
    {
        let mut c = self;
        c.custom_headers.insert(owned(name), owned(value));
        c
    }

    /// Add a hidden pattern.
    pub fn hide_pattern(self, pattern: &str) -> (res: Self)
        ensures
            views(res.hidden_patterns@) == views(self.hidden_patterns@).push(pattern@),
            res == (StaticFilesConfig { hidden_patterns: res.hidden_patterns, ..self }),
    {
        let mut c = self;
        c.hidden_patterns.push(owned(pattern));
        assert(views(c.hidden_patterns@) =~= views(self.hidden_patterns@).push(pattern@));
        c
    }
}

// ============================================================================
// Middleware
// ============================================================================

/// Whether `b` is an ASCII hexadecimal digit.
pub open spec fn is_hex_byte(b: u8) -> bool {
    (0x30 <= b <= 0x39) || (0x41 <= b <= 0x46) || (0x61 <= b <= 0x66)
}

/// The value of an ASCII hexadecimal digit.
pub open spec fn hex_byte_value(b: u8) -> int {
    if 0x30 <= b <= 0x39 {
        b - 0x30
    } else if 0x41 <= b <= 0x46 {
        b - 0x41 + 10
    } else {
        b - 0x61 + 10
    }
}

/// Percent-decoding of bytes: `%` and two hexadecimal digits become the byte
/// they spell; a `%` whose first follower is no digit is kept alone and
/// decoding goes on at that follower; a `%` whose first follower is a digit and
/// whose second is not is kept with that digit; a `%` with fewer than two
/// followers is kept with them; every other byte is kept (`+` too).
pub open spec fn percent_decode_bytes(b: Seq<u8>) -> Seq<u8>
    decreases b.len(),
{
    if b.len() == 0 {
        b
    } else if b[0] != 0x25u8 {
        seq![b[0]] + percent_decode_bytes(b.skip(1))
    } else if b.len() < 3 {
        b
    } else if !is_hex_byte(b[1]) {
        seq![b[0]] + percent_decode_bytes(b.skip(1))
    } else if !is_hex_byte(b[2]) {
        seq![b[0], b[1]] + percent_decode_bytes(b.skip(2))
    } else {
        seq![(hex_byte_value(b[1]) * 16 + hex_byte_value(b[2])) as u8] + percent_decode_bytes(b.skip(3))
    }
}

/// What `urlencoding::decode` makes of `s`: its UTF-8 bytes percent-decoded,
/// read back as UTF-8; `None` when the decoded bytes are not UTF-8.
pub open spec fn percent_decode(s: Seq<char>) -> Option<Seq<char>> {
    let b = percent_decode_bytes(vstd::utf8::encode_utf8(s));
    if vstd::utf8::valid_utf8(b) {
        Some(vstd::utf8::decode_utf8(b))
    } else {
        None
    }
}

/// `urlencoding::decode(s)`, owned, with the error mapped to `None`. The crate
/// decodes `%` escapes byte by byte as `percent_decode_bytes` states (a string
/// without `%` is handed back as it is) and then checks the bytes with
/// `String::from_utf8`, whose error is the only one it returns.
#[verifier::external_body]
pub(crate) fn url_decode(s: &str) -> (res: Option<String>)
    ensures
        res matches Some(d) ==> percent_decode(s@) == Some(d@),
        res is None ==> percent_decode(s@) is None,
{
    match urlencoding::decode(s) {
        Ok(d) => Some(d.into_owned()),
        Err(_) => None,
    }
}

/// Whether a path component is hidden by a pattern: `.` hides components that
/// start with a dot, `..` hides `..`, any other pattern hides components equal
/// to it or starting with it.
pub open spec fn hidden_by(component: Seq<char>, pattern: Seq<char>) -> bool {
    if pattern == "."@ {
        is_prefix("."@, component)
    } else if pattern == ".."@ {
        component == ".."@
    } else {
        component == pattern || is_prefix(pattern, component)
    }
}

/// Whether some component of `d` is hidden by some pattern.
pub open spec fn any_hidden(d: Seq<char>, patterns: Seq<String>) -> bool {
    exists|i: int, j: int| 0 <= i < split_char(d, '/').len() && 0 <= j < patterns.len()
        && hidden_by(#[trigger] split_char(d, '/')[i], #[trigger] patterns[j]@)
}

/// The `ETag` of a file: its modification time and size in hex, quoted.
pub open spec fn file_etag(modified: u64, size: u64) -> Seq<char> {
    "\""@ + hex_num(modified as nat) + "-"@ + hex_num(size as nat) + "\""@
}

/// Static files middleware.
pub struct StaticFilesMiddleware {
    pub config: StaticFilesConfig,
}

/// What a file on disk is known by.
pub struct FileMeta {
    /// Modification time in Unix seconds, when the system gives one.
    pub modified: Option<u64>,
    /// Size in bytes.
    pub size: u64,
}

impl StaticFilesMiddleware {
    pub open spec fn wf(&self) -> bool {
        self.config.wf()
    }

    /// Whether a request path lies under the served URL path.
    pub open spec fn spec_under(&self, path: Seq<char>) -> bool {
        path == self.config.url_path@ || is_prefix(self.config.url_path@ + "/"@, path)
    }

    /// The decoded path, relative to the root, that a request path names; `None`
    /// when it is not under the served path or is refused (a NUL, undecodable
    /// text, a hidden component, `..`, or a backslash).
    pub open spec fn spec_resolve(&self, path: Seq<char>) -> Option<Seq<char>> {
        if !self.spec_under(path) {
            None
        } else {
            let rel = strip_prefix_all(path.subrange(self.config.url_path@.len() as int, path.len() as int), "/"@);
            if rel.contains('\0') {
                None
            } else {
                match percent_decode(rel) {
                    None => None,
                    Some(d) => if any_hidden(d, self.config.hidden_patterns@)
                        || contains_sub(rel, ".."@) || contains_sub(d, ".."@) || d.contains('\\') {
                        None
                    } else {
                        Some(d)
                    },
                }
            }
        }
    }

    /// Create new static files middleware.
    pub fn new(url_path: &str, root_dir: &str) -> (res: Self)
        ensures
            res.wf(),
            res.config.url_path@ == strip_char_end(url_path@, '/'),
            res.config.root_dir@ == root_dir@,
    {
        StaticFilesMiddleware { config: StaticFilesConfig::new(url_path, root_dir) }
    }

    /// Create with config.
    pub fn with_config(config: StaticFilesConfig) -> (res: Self)
        ensures
            res.config == config,
    {
        StaticFilesMiddleware { config }
    }

    /// Whether a request path lies under the served URL path.
    pub fn is_under(&self, path: &str) -> (res: bool)
        ensures
            res == self.spec_under(path@),
    {
        if str_eq(path, self.config.url_path.as_str()) {
            return true;
        }
        let mut prefix = self.config.url_path.clone();
        prefix.append("/");
        str_starts_with(path, prefix.as_str())
    }

    /// Whether this middleware answers a request that no route matches.
    pub fn serves_unrouted(&self, method: &str, path: &str) -> (res: bool)
        ensures
            res == ((method@ == "GET"@ || method@ == "HEAD"@) && self.spec_under(path@)),
    {
        (str_eq(method, "GET") || str_eq(method, "HEAD")) && self.is_under(path)
    }

    /// Whether some pattern hides a component of `d`.
    fn hidden(&self, d: &str) -> (res: bool)
        ensures
            res == any_hidden(d@, self.config.hidden_patterns@),
    {
        let comps = split_str(d, '/');
        let ghost cs = split_char(d@, '/');
        let mut i: usize = 0;
        while i < comps.len()
            invariant
                views(comps@) == cs,
                cs == split_char(d@, '/'),
                i <= cs.len(),
                forall|a: int, b: int| 0 <= a < i && 0 <= b < self.config.hidden_patterns@.len()
                    ==> !hidden_by(#[trigger] cs[a], #[trigger] self.config.hidden_patterns@[b]@),
            decreases comps.len() - i,
        {
            let comp = comps[i].as_str();
            assert(cs[i as int] == comp@);
            let mut j: usize = 0;
            while j < self.config.hidden_patterns.len()
                invariant
                    views(comps@) == cs,
                    cs == split_char(d@, '/'),
                    i < cs.len(),
                    cs[i as int] == comp@,
                    j <= self.config.hidden_patterns@.len(),
                    forall|a: int, b: int| 0 <= a < i && 0 <= b < self.config.hidden_patterns@.len()
                        ==> !hidden_by(#[trigger] cs[a], #[trigger] self.config.hidden_patterns@[b]@),
                    forall|b: int| 0 <= b < j ==> !hidden_by(comp@, #[trigger] self.config.hidden_patterns@[b]@),
                decreases self.config.hidden_patterns.len() - j,
            {
                let pattern = self.config.hidden_patterns[j].as_str();
                let h = if str_eq(pattern, ".") {
                    str_starts_with(comp, ".")
                } else if str_eq(pattern, "..") {
                    str_eq(comp, "..")
                } else {
                    str_eq(comp, pattern) || str_starts_with(comp, pattern)
                };
                if h {
                    return true;
                }
                j = j + 1;
            }
            i = i + 1;
        }
        false
    }

    /// The decoded relative path a request path names, or `None` when it is not
    /// served or is refused.  The caller joins it to the root directory and
    /// checks that the canonical result stays inside the root.
    pub fn resolve_path(&self, request_path: &str) -> (res: Option<String>)
        ensures
            res matches Some(d) ==> self.spec_resolve(request_path@) == Some(d@),
            res is None ==> self.spec_resolve(request_path@) is None,
    {
        if !self.is_under(request_path) {
            return None;
        }
        let v = chars_of(request_path);
        let n = self.config.url_path.unicode_len();
        proof {
            if request_path@ != self.config.url_path@ {
                reveal_strlit("/");
            }
        }
        let tail = request_path.substring_char(n, v.len());
        let relative = trim_start_matches(tail, "/");
        if str_has_char(relative, '\0') {
            return None;
        }
        let decoded = match url_decode(relative) {
            Some(d) => d,
            None => {
                return None;
            },
        };
        if self.hidden(decoded.as_str()) {
            return None;
        }
        if str_contains(relative, "..") || str_contains(decoded.as_str(), "..") {
            return None;
        }
        if str_has_char(decoded.as_str(), '\\') {
            return None;
        }
        Some(decoded)
    }

    /// The cache control for a file with the given extension.
    pub fn get_cache_control(&self, ext: Option<&str>) -> (res: &CacheControl)
        requires
            self.wf(),
        ensures
            *res == match ext {
                Some(e) => if self.config.cache_by_ext.to_map().dom().contains(e@) {
                    self.config.cache_by_ext.to_map()[e@]
                } else {
                    self.config.cache_control
                },
                None => self.config.cache_control,
            },
    {
        match ext {
            Some(e) => match self.config.cache_by_ext.get(e) {
                Some(cc) => cc,
                None => &self.config.cache_control,
            },
            None => &self.config.cache_control,
        }
    }

    /// The ETag of a file from its modification time (0 when unknown) and size.
    pub fn generate_etag(&self, meta: &FileMeta) -> (res: String)
        ensures
            res@ == file_etag(match meta.modified {
                Some(m) => m,
                None => 0,
            }, meta.size),
    {
        let modified = match meta.modified {
            Some(m) => m,
            None => 0,
        };
        let mut s = String::from_str("\"");
        append_hex_num(&mut s, modified);
        s.append("-");
        append_hex_num(&mut s, meta.size);
        s.append("\"");
        s
    }

    /// The pre-compressed encodings to look for, in order of preference, given
    /// the request's `Accept-Encoding`.
    pub fn precompressed_encodings(&self, accept_encoding: &str) -> (res: Vec<&'static str>)
        ensures
            res@.map_values(|e: &str| e@) == if !self.config.precompressed {
                Seq::<Seq<char>>::empty()
            } else {
                (if contains_sub(accept_encoding@, "br"@) { seq!["br"@] } else { Seq::empty() })
                    + (if contains_sub(accept_encoding@, "gzip"@) { seq!["gzip"@] } else { Seq::empty() })
            },
    {
        let mut out: Vec<&'static str> = Vec::new();
        if !self.config.precompressed {
            assert(out@.map_values(|e: &str| e@) =~= Seq::<Seq<char>>::empty());
            return out;
        }
        let br = str_contains(accept_encoding, "br");
        let gz = str_contains(accept_encoding, "gzip");
        if br {
            out.push("br");
        }
        if gz {
            out.push("gzip");
        }
        assert(out@.map_values(|e: &str| e@) =~= (if br { seq!["br"@] } else { Seq::<Seq<char>>::empty() })
            + (if gz { seq!["gzip"@] } else { Seq::<Seq<char>>::empty() }));
        out
    }

    /// The answer to a conditional request for a file, if it is one: 304 with
    /// the ETag when `If-None-Match` equals it, else a bare 304 when
    /// `If-Modified-Since` equals the modification time.
    pub open spec fn spec_conditional(&self, request: &Request, meta: &FileMeta) -> Option<Map<Seq<char>, Seq<char>>> {
        let etag = file_etag(match meta.modified { Some(m) => m, None => 0 }, meta.size);
        if self.config.etag && request.header("if-none-match"@) == Some(etag) {
            Some(set_hdr(Map::empty(), "ETag"@, etag))
        } else if self.config.last_modified && meta.modified is Some
            && request.header("if-modified-since"@) == Some(format_http_date_spec(meta.modified->0)) {
            Some(Map::empty())
        } else {
            None
        }
    }

    /// Answer a conditional request for a file with 304, when it is one.
    pub fn conditional_response(&self, request: &Request, meta: &FileMeta) -> (res: Option<Response>)
        requires
            request.wf(),
        ensures
            res matches Some(r) ==> r.wf() && r.status == 304 && self.spec_conditional(request, meta) == Some(r.header_map())
                && r.body@.len() == 0,
            res is None ==> self.spec_conditional(request, meta) is None,
    {
        if self.config.etag {
            let etag = self.generate_etag(meta);
            match request.header_value("if-none-match") {
                Some(inm) => {
                    if str_eq(inm, etag.as_str()) {
                        let mut response = Response::new(304);
                        response.set_header("ETag", etag.as_str());
                        return Some(response);
                    }
                },
                None => {},
            }
        }
        if self.config.last_modified {
            match meta.modified {
                Some(m) => match request.header_value("if-modified-since") {
                    Some(ims) => {
                        let d = format_http_date(m);
                        if str_eq(ims, d.as_str()) {
                            let r = Response::new(304);
                            return Some(r);
                        }
                    },
                    None => {},
                },
                None => {},
            }
        }
        None
    }

    /// The headers of the 200 answer serving a file.
    pub open spec fn spec_file_headers(&self, ext: Option<Seq<char>>, meta: &FileMeta, body_len: nat, encoding: Option<Seq<char>>) -> Map<Seq<char>, Seq<char>> {
        let cc = match ext {
            Some(e) => if self.config.cache_by_ext.to_map().dom().contains(e) {
                self.config.cache_by_ext.to_map()[e]
            } else {
                self.config.cache_control
            },
            None => self.config.cache_control,
        };
        let m1 = set_hdr(Map::empty(), "Content-Type"@, mime_for(unicode_lowercase(match ext { Some(e) => e, None => ""@ })));
        let m2 = set_hdr(m1, "Content-Length"@, dec(body_len));
        let m3 = set_hdr(m2, "Cache-Control"@, cc.spec_value());
        let m4 = if self.config.etag {
            set_hdr(m3, "ETag"@, file_etag(match meta.modified { Some(m) => m, None => 0 }, meta.size))
        } else {
            m3
        };
        let m5 = if self.config.last_modified && meta.modified is Some {
            set_hdr(m4, "Last-Modified"@, format_http_date_spec(meta.modified->0))
        } else {
            m4
        };
        let m6 = match encoding {
            Some(enc) => set_hdr(set_hdr(m5, "Content-Encoding"@, enc), "Vary"@, "Accept-Encoding"@),
            None => m5,
        };
        custom_headers_applied(m6, self.config.custom_headers.seq())
    }

    /// The 200 answer serving a file's contents.
    pub fn file_response(&self, ext: Option<&str>, meta: &FileMeta, body: Vec<u8>, encoding: Option<&str>) -> (res: Response)
        requires
            self.wf(),
        ensures
            res.wf(),
            res.status == 200,
            res.header_map() == self.spec_file_headers(
                match ext { Some(e) => Some(e@), None => None },
                meta,
                body@.len(),
                match encoding { Some(e) => Some(e@), None => None },
            ),
            res.body == body,
    {
        let e = match ext {
            Some(e) => e,
            None => "",
        };
        let content_type = mime_type_for_extension(e);
        let mut response = Response::new(200);
        response.set_header("Content-Type", content_type);
        let len = u64_to_string(body.len() as u64);
        response.set_header("Content-Length", len.as_str());
        let cc = self.get_cache_control(ext).to_header_value();
        response.set_header("Cache-Control", cc.as_str());
        if self.config.etag {
            let etag = self.generate_etag(meta);
            response.set_header("ETag", etag.as_str());
        }
        if self.config.last_modified {
            match meta.modified {
                Some(m) => {
                    let d = format_http_date(m);
                    response.set_header("Last-Modified", d.as_str());
                },
                None => {},
            }
        }
        match encoding {
            Some(enc) => {
                response.set_header("Content-Encoding", enc);
                response.set_header("Vary", "Accept-Encoding");
            },
            None => {},
        }
        let ghost before = response.header_map();
        assert(custom_headers_applied(before, self.config.custom_headers.seq())
            == self.spec_file_headers(
                match ext { Some(e) => Some(e@), None => None },
                meta,
                body@.len(),
                match encoding { Some(e) => Some(e@), None => None },
            ));
        let mut i: usize = 0;
        let ghost hs = self.config.custom_headers.seq();
        assert(hs.subrange(0, 0) =~= Seq::<(String, String)>::empty());
        while i < self.config.custom_headers.entries.len()
            invariant
                hs == self.config.custom_headers.seq(),
                i <= hs.len(),
                response.wf(),
                response.status == 200,
                response.header_map() == custom_headers_applied(before, hs.subrange(0, i as int)),
            decreases self.config.custom_headers.entries.len() - i,
        {
            let name = self.config.custom_headers.entries[i].0.as_str();
            let value = self.config.custom_headers.entries[i].1.as_str();
            response.set_header(name, value);
            assert(hs.subrange(0, i as int + 1).drop_last() =~= hs.subrange(0, i as int));
            i = i + 1;
        }
        assert(hs.subrange(0, hs.len() as int) =~= hs);
        response.body = body;
        response
    }

    /// Runs early, after logging.
    pub fn priority(&self) -> (res: i32)
        ensures
            res == -80,
    {
        -80
    }

    /// The middleware's name.
    pub fn name(&self) -> (res: &'static str)
        ensures
            res@ == "static_files"@,
    {
        "static_files"
    }
}

/// The headers after each custom header is set in turn.
pub open spec fn custom_headers_applied(m: Map<Seq<char>, Seq<char>>, hs: Seq<(String, String)>) -> Map<Seq<char>, Seq<char>>
    decreases hs.len(),
{
    if hs.len() == 0 {
        m
    } else {
        set_hdr(custom_headers_applied(m, hs.drop_last()), hs.last().0@, hs.last().1@)
    }
}

/// The date form a file's modification time is compared and sent in: its Unix
/// seconds in decimal.
pub open spec fn format_http_date_spec(secs: u64) -> Seq<char> {
    dec(secs as nat)
}

/// Format a modification time (Unix seconds) for `Last-Modified`.
pub fn format_http_date(secs: u64) -> (res: String)
    ensures
        res@ == format_http_date_spec(secs),
{
    u64_to_string(secs)
}

// ============================================================================
// Directory listing
// ============================================================================

/// The listing page up to the entries (with the parent-directory link).
pub const LISTING_HEAD: &'static str = "<!DOCTYPE html><html><head><title>Directory Listing</title><style>body{font-family:sans-serif;margin:20px}a{text-decoration:none}.dir{color:#00f}.file{color:#333}</style></head><body><h1>Directory Listing</h1><ul><li><a href=\"..\" class=\"dir\">..</a></li>";

/// The listing page after the entries.
pub const LISTING_TAIL: &'static str = "</ul></body></html>";

/// The list item of one directory entry: a link to it, directories marked
/// with a trailing `/`.
pub open spec fn listing_item(name: Seq<char>, is_dir: bool) -> Seq<char> {
    let suffix = if is_dir { "/"@ } else { Seq::empty() };
    let class = if is_dir { "dir"@ } else { "file"@ };
    "<li><a href=\""@ + name + suffix + "\" class=\""@ + class + "\">"@ + name + suffix + "</a></li>"@
}

/// The list items of the entries, hidden ones (names starting with `.`) left out.
pub open spec fn listing_items(entries: Seq<(String, bool)>) -> Seq<char>
    decreases entries.len(),
{
    if entries.len() == 0 {
        Seq::empty()
    } else {
        let rest = listing_items(entries.drop_last());
        let name = entries.last().0@;
        if name.len() > 0 && name[0] == '.' {
            rest
        } else {
            rest + listing_item(name, entries.last().1)
        }
    }
}

/// The listing page of a directory's entries (name, and whether a directory).
pub fn dir_listing_html(entries: &Vec<(String, bool)>) -> (res: String)
    ensures
        res@ == LISTING_HEAD@ + listing_items(entries@) + LISTING_TAIL@,
{
    let mut html = String::from_str(LISTING_HEAD);
    let mut i: usize = 0;
    assert(entries@.subrange(0, 0) =~= Seq::<(String, bool)>::empty());
    while i < entries.len()
        invariant
            i <= entries@.len(),
            html@ == LISTING_HEAD@ + listing_items(entries@.subrange(0, i as int)),
        decreases entries.len() - i,
    {
        assert(entries@.subrange(0, i as int + 1).drop_last() =~= entries@.subrange(0, i as int));
        let name = entries[i].0.as_str();
        let is_dir = entries[i].1;
        let hidden = name.unicode_len() > 0 && name.get_char(0) == '.';
        if !hidden {
            let ghost before = html@;
            let suffix = if is_dir { "/" } else { "" };
            let class = if is_dir { "dir" } else { "file" };
            proof {
                reveal_strlit("");
            }
            html.append("<li><a href=\"");
            html.append(name);
            html.append(suffix);
            html.append("\" class=\"");
            html.append(class);
            html.append("\">");
            html.append(name);
            html.append(suffix);
            html.append("</a></li>");
            assert(html@ =~= before + listing_item(name@, is_dir));
        }
        i = i + 1;
    }
    assert(entries@.subrange(0, entries@.len() as int) =~= entries@);
    html.append(LISTING_TAIL);
    html
}

impl StaticFilesMiddleware {
    /// The answer to a request for a directory, when listings are enabled: its
    /// listing page as HTML.
    pub fn dir_listing_response(&self, entries: &Vec<(String, bool)>) -> (res: Option<Response>)
        ensures
            !self.config.dir_listing ==> res is None,
            self.config.dir_listing ==> (res matches Some(r) && r.wf() && r.status == 200
                && r.header_map() == map!["Content-Type"@ => "text/html; charset=utf-8"@]
                && r.body@ == vstd::utf8::encode_utf8(LISTING_HEAD@ + listing_items(entries@) + LISTING_TAIL@)
                && r.body_type is Bytes),
    {
        if !self.config.dir_listing {
            return None;
        }
        let html = dir_listing_html(entries);
        let mut r = Response::new(200);
        r.headers.insert(String::from_str("Content-Type"), String::from_str("text/html; charset=utf-8"));
        assert(r.header_map() =~= map!["Content-Type"@ => "text/html; charset=utf-8"@]);
        r.set_body(vstd::slice::slice_to_vec(html.as_str().as_bytes()));
        Some(r)
    }
}

/// A conditional request for a file is answered with 304 when it names what
/// this server last sent for it: with ETags on, an If-None-Match equal to the
/// file's ETag gets a 304 carrying that ETag; with Last-Modified on and a known
/// modification time, an If-Modified-Since equal to that time as sent in
/// Last-Modified (its decimal count of Unix seconds) gets a 304. A request
/// with neither header is never answered with 304.
pub proof fn lemma_not_modified(m: StaticFilesMiddleware, r: Request, meta: FileMeta)
    ensures
        m.config.etag && r.header("if-none-match"@)
            == Some(file_etag(match meta.modified { Some(t) => t, None => 0 }, meta.size))
            ==> m.spec_conditional(&r, &meta) == Some(set_hdr(Map::<Seq<char>, Seq<char>>::empty(), "ETag"@,
                file_etag(match meta.modified { Some(t) => t, None => 0 }, meta.size))),
        m.config.last_modified && meta.modified is Some
            && r.header("if-modified-since"@) == Some(dec(meta.modified->0 as nat))
            ==> m.spec_conditional(&r, &meta) is Some,
        r.header("if-none-match"@) is None && r.header("if-modified-since"@) is None
            ==> m.spec_conditional(&r, &meta) is None,
        !m.config.etag && !m.config.last_modified ==> m.spec_conditional(&r, &meta) is None,
{
}

} // verus!
