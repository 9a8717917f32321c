//! Building responses: text, HTML, binary, redirects, file downloads and byte
//! ranges, and content negotiation over the `Accept` header.
use vstd::prelude::*;
use crate::http::{Response, ResponseBody};
use crate::strmap::StrMap;
use crate::text::{
    chars_of, dec, first_index_of, is_prefix, is_suffix, owned, parse_u64, parse_uint, split_char, split_str,
    str_eq, str_starts_with, str_trim, string_of_range, trim, u64_to_string, views,
};

verus! {

// ============================================================================
// Byte ranges
// ============================================================================

/// The value of an unsigned number in a range header, or the error to report.
pub open spec fn range_number(s: Seq<char>, err: Seq<char>) -> Result<u64, Seq<char>> {
    match parse_uint(s, u64::MAX as nat) {
        Some(n) => Ok(n as u64),
        None => Err(err),
    }
}

/// The first byte of a range: a suffix range `-n` starts `n` bytes before the
/// end (at 0 when `n` is the size or more).
pub open spec fn range_start(parts: Seq<Seq<char>>, size: u64) -> Result<u64, Seq<char>> {
    if parts[0].len() == 0 {
        match range_number(parts[1], "Invalid suffix range"@) {
            Ok(n) => Ok(if n >= size { 0u64 } else { (size - n) as u64 }),
            Err(e) => Err(e),
        }
    } else {
        range_number(parts[0], "Invalid start range"@)
    }
}

/// The last byte of a range: the end of the file for a suffix range or when
/// left out.
pub open spec fn range_end(parts: Seq<Seq<char>>, size: u64) -> Result<u64, Seq<char>> {
    if parts[0].len() == 0 || parts[1].len() == 0 {
        Ok((size - 1) as u64)
    } else {
        range_number(parts[1], "Invalid end range"@)
    }
}

/// What a `Range` header (`bytes=start-end`, `bytes=start-` or `bytes=-suffix`)
/// selects of a file of `size` bytes: the first and last byte, both within the
/// file, or the reason it selects nothing.
pub open spec fn range_of(header: Seq<char>, size: u64) -> Result<(u64, u64), Seq<char>> {
    let h = trim(header);
    if !is_prefix("bytes="@, h) {
        Err("Invalid range header format"@)
    } else if size == 0 {
        Err("Range not satisfiable"@)
    } else {
        let parts = split_char(h.subrange(6, h.len() as int), '-');
        if parts.len() != 2 {
            Err("Invalid range format"@)
        } else {
            match range_start(parts, size) {
                Err(e) => Err(e),
                Ok(start) => match range_end(parts, size) {
                    Err(e) => Err(e),
                    Ok(end) => if start > end || end >= size {
                        Err("Range not satisfiable"@)
                    } else {
                        Ok((start, end))
                    },
                },
            }
        }
    }
}

/// Parse an HTTP `Range` header against a file of `file_size` bytes.
pub fn parse_range_header(header: &str, file_size: u64) -> (res: Result<(u64, u64), String>)
    ensures
        match range_of(header@, file_size) {
            Ok(r) => res == Ok::<(u64, u64), String>(r),
            Err(e) => res matches Err(m) && m@ == e,
        },
{
    let h = str_trim(header);
    if !str_starts_with(h.as_str(), "bytes=") {
        return Err(String::from_str("Invalid range header format"));
    }
    if file_size == 0 {
        return Err(String::from_str("Range not satisfiable"));
    }
    proof {
        reveal_strlit("bytes=");
    }
    let v = chars_of(h.as_str());
    let range = string_of_range(&v, 6, v.len());
    let parts = split_str(range.as_str(), '-');
    if parts.len() != 2 {
        return Err(String::from_str("Invalid range format"));
    }
    assert(parts@[0]@ == views(parts@)[0]);
    assert(parts@[1]@ == views(parts@)[1]);
    let start: u64 = if parts[0].as_str().unicode_len() == 0 {
        match parse_u64(parts[1].as_str()) {
            Some(n) => if n >= file_size { 0 } else { file_size - n },
            None => return Err(String::from_str("Invalid suffix range")),
        }
    } else {
        match parse_u64(parts[0].as_str()) {
            Some(n) => n,
            None => return Err(String::from_str("Invalid start range")),
        }
    };
    let end: u64 = if parts[0].as_str().unicode_len() == 0 || parts[1].as_str().unicode_len() == 0 {
        file_size - 1
    } else {
        match parse_u64(parts[1].as_str()) {
            Some(n) => n,
            None => return Err(String::from_str("Invalid end range")),
        }
    };
    if start > end || end >= file_size {
        return Err(String::from_str("Range not satisfiable"));
    }
    Ok((start, end))
}

// ============================================================================
// Constructors
// ============================================================================

/// The UTF-8 bytes of a string.
fn utf8_bytes(s: &str) -> (res: Vec<u8>)
    ensures
        res@ == vstd::utf8::encode_utf8(s@),
{
    vstd::slice::slice_to_vec(s.as_bytes())
}

/// A map holding one header.
fn one_header(key: &str, value: String) -> (res: StrMap<String>)
    ensures
        res.wf(),
        res.to_map().map_values(|v: String| v@) == map![key@ => value@],
{
    let mut h = StrMap::new();
    h.insert(owned(key), value);
    assert(h.to_map().map_values(|v: String| v@) =~= map![key@ => value@]);
    h
}

/// The path's last component (`Path::file_name`), as text.
pub uninterp spec fn file_name_of(path: Seq<char>) -> Option<Seq<char>>;

/// `Path::new(path).file_name()`, converted to a string.
#[verifier::external_body]
fn path_file_name(path: &str) -> (res: Option<String>)
    ensures
        match file_name_of(path@) {
            Some(n) => res matches Some(r) && r@ == n,
            None => res is None,
        },
{
    std::path::Path::new(path).file_name().map(|n| n.to_string_lossy().to_string())
}

/// The content type of a file response: the one given, or the one guessed from
/// the path.
pub open spec fn file_content_type(path: Seq<char>, content_type: Option<Seq<char>>) -> Seq<char> {
    match content_type {
        Some(c) => c,
        None => crate::streaming::guessed_mime(path),
    }
}

/// The content type a file response uses.
fn choose_content_type(path: &str, content_type: Option<&str>) -> (res: String)
    ensures
        res@ == file_content_type(path@, match content_type {
            Some(c) => Some(c@),
            None => None,
        }),
{
    match content_type {
        Some(c) => owned(c),
        None => crate::streaming::guess_mime(path),
    }
}

impl Response {
    /// A `text/plain` response; status 200 unless given.
    pub fn text(content: &str, status: Option<u16>) -> (res: Self)
        ensures
            res.wf(),
            res.status == match status {
                Some(s) => s,
                None => 200u16,
            },
            res.header_map() == map!["Content-Type"@ => "text/plain; charset=utf-8"@],
            res.body@ == vstd::utf8::encode_utf8(content@),
            res.content_type@ == "text/plain"@,
            res.body_type is Bytes,
    {
        Response {
            status: match status {
                Some(s) => s,
                None => 200,
            },
            headers: one_header("Content-Type", String::from_str("text/plain; charset=utf-8")),
            body: utf8_bytes(content),
            content_type: String::from_str("text/plain"),
            body_type: ResponseBody::Bytes(Vec::new()),
        }
    }

    /// A `text/html` response; status 200 unless given.
    pub fn html(content: &str, status: Option<u16>) -> (res: Self)
        ensures
            res.wf(),
            res.status == match status {
                Some(s) => s,
                None => 200u16,
            },
            res.header_map() == map!["Content-Type"@ => "text/html; charset=utf-8"@],
            res.body@ == vstd::utf8::encode_utf8(content@),
            res.content_type@ == "text/html"@,
            res.body_type is Bytes,
    {
        Response {
            status: match status {
                Some(s) => s,
                None => 200,
            },
            headers: one_header("Content-Type", String::from_str("text/html; charset=utf-8")),
            body: utf8_bytes(content),
            content_type: String::from_str("text/html"),
            body_type: ResponseBody::Bytes(Vec::new()),
        }
    }

    /// A binary response, `application/octet-stream` unless a content type is
    /// given; status 200 unless given.
    pub fn binary(data: Vec<u8>, content_type: Option<&str>, status: Option<u16>) -> (res: Self)
        ensures
            res.wf(),
            res.status == match status {
                Some(s) => s,
                None => 200u16,
            },
            res.content_type@ == match content_type {
                Some(c) => c@,
                None => "application/octet-stream"@,
            },
            res.header_map() == map!["Content-Type"@ => res.content_type@],
            res.body@ == data@,
            res.body_type is Bytes,
    {
        let ct = match content_type {
            Some(c) => owned(c),
            None => String::from_str("application/octet-stream"),
        };
        Response {
            status: match status {
                Some(s) => s,
                None => 200,
            },
            headers: one_header("Content-Type", ct.clone()),
            body: data,
            content_type: ct,
            body_type: ResponseBody::Bytes(Vec::new()),
        }
    }

    /// A redirect to `url`: 301 when permanent, else 302.
    pub fn redirect(url: &str, permanent: Option<bool>) -> (res: Self)
        ensures
            res.wf(),
            res.status == if permanent == Some(true) { 301u16 } else { 302u16 },
            res.header_map() == map!["Location"@ => url@],
            res.body@.len() == 0,
            res.content_type@ == "text/plain"@,
            res.body_type is Empty,
    {
        let status: u16 = match permanent {
            Some(true) => 301,
            _ => 302,
        };
        Response {
            status,
            headers: one_header("Location", owned(url)),
            body: Vec::new(),
            content_type: String::from_str("text/plain"),
            body_type: ResponseBody::Empty,
        }
    }

    /// A "204 No Content" response.
    pub fn no_content() -> (res: Self)
        ensures
            res.wf(),
            res.status == 204,
            res.header_map() == Map::<Seq<char>, Seq<char>>::empty(),
            res.body@.len() == 0,
            res.content_type@ == "text/plain"@,
            res.body_type is Empty,
    {
        Response::new(204)
    }

    /// A JSON response from bytes that are already JSON.
    pub fn from_json_bytes(body: Vec<u8>, status: u16) -> (res: Self)
        ensures
            res.wf(),
            res.status == status,
            res.header_map() == map!["Content-Type"@ => "application/json"@],
            res.body@ == body@,
            res.content_type@ == "application/json"@,
            res.body_type is Bytes,
    {
        Response {
            status,
            headers: one_header("Content-Type", String::from_str("application/json")),
            body,
            content_type: String::from_str("application/json"),
            body_type: ResponseBody::Bytes(Vec::new()),
        }
    }

    /// A 400 error response.
    pub fn bad_request(message: &str) -> (res: Self)
        ensures
            res.wf(),
            res.status == 400,
            res.header_map() == map!["Content-Type"@ => "application/json"@],
            res.body@ == crate::http::error_json_of(message@, 400),
    {
        Response::error(400, message)
    }

    /// A 401 error response.
    pub fn unauthorized(message: &str) -> (res: Self)
        ensures
            res.wf(),
            res.status == 401,
            res.header_map() == map!["Content-Type"@ => "application/json"@],
            res.body@ == crate::http::error_json_of(message@, 401),
    {
        Response::error(401, message)
    }

    /// A 403 error response.
    pub fn forbidden(message: &str) -> (res: Self)
        ensures
            res.wf(),
            res.status == 403,
            res.header_map() == map!["Content-Type"@ => "application/json"@],
            res.body@ == crate::http::error_json_of(message@, 403),
    {
        Response::error(403, message)
    }

    /// A 404 error response.
    pub fn not_found(message: &str) -> (res: Self)
        ensures
            res.wf(),
            res.status == 404,
            res.header_map() == map!["Content-Type"@ => "application/json"@],
            res.body@ == crate::http::error_json_of(message@, 404),
    {
        Response::error(404, message)
    }

    /// A 500 error response.
    pub fn internal_error(message: &str) -> (res: Self)
        ensures
            res.wf(),
            res.status == 500,
            res.header_map() == map!["Content-Type"@ => "application/json"@],
            res.body@ == crate::http::error_json_of(message@, 500),
    {
        Response::error(500, message)
    }

    /// A copy of the body.
    pub fn body(&self) -> (res: Vec<u8>)
        ensures
            res@ == self.body@,
    {
        self.body.clone()
    }

    /// The body's bytes.
    pub fn body_bytes(&self) -> (res: &[u8])
        ensures
            res@ == self.body@,
    {
        self.body.as_slice()
    }

    /// The body's length.
    pub fn content_length(&self) -> (res: usize)
        ensures
            res == self.body@.len(),
    {
        self.body.len()
    }

    /// Replace the body; the response then has a bytes body.
    pub fn set_body(&mut self, body: Vec<u8>)
        ensures
            final(self).body == body,
            final(self).body_type is Bytes,
            final(self).status == old(self).status,
            final(self).headers == old(self).headers,
            final(self).content_type == old(self).content_type,
    {
        self.body = body;
        self.body_type = ResponseBody::Bytes(Vec::new());
    }

    /// The kind of body.
    pub fn body_type(&self) -> (res: &ResponseBody)
        ensures
            *res == self.body_type,
    {
        &self.body_type
    }

    /// Whether the body is streamed.
    pub fn is_streaming(&self) -> (res: bool)
        ensures
            res == self.body_type is Streaming,
    {
        match self.body_type {
            ResponseBody::Streaming => true,
            _ => false,
        }
    }

    /// Whether the body is a file.
    pub fn is_file(&self) -> (res: bool)
        ensures
            res == self.body_type is File,
    {
        match self.body_type {
            ResponseBody::File(_) => true,
            _ => false,
        }
    }

    /// Whether the body is sent in chunks.
    pub fn is_chunked(&self) -> (res: bool)
        ensures
            res == self.body_type is Chunked,
    {
        match self.body_type {
            ResponseBody::Chunked => true,
            _ => false,
        }
    }

    /// Mark the body as streamed, sent with chunked transfer encoding.
    pub fn set_streaming(&mut self)
        requires
            old(self).wf(),
        ensures
            final(self).wf(),
            final(self).body_type is Streaming,
            final(self).header_map() == old(self).header_map().insert("Transfer-Encoding"@, "chunked"@),
            final(self).status == old(self).status,
            final(self).body == old(self).body,
            final(self).content_type == old(self).content_type,
    {
        self.body_type = ResponseBody::Streaming;
        self.headers.insert(String::from_str("Transfer-Encoding"), String::from_str("chunked"));
        assert(self.header_map() =~= old(self).header_map().insert("Transfer-Encoding"@, "chunked"@));
    }

    /// Mark the body as chunked.
    pub fn set_chunked(&mut self)
        requires
            old(self).wf(),
        ensures
            final(self).wf(),
            final(self).body_type is Chunked,
            final(self).header_map() == old(self).header_map().insert("Transfer-Encoding"@, "chunked"@),
            final(self).status == old(self).status,
            final(self).body == old(self).body,
            final(self).content_type == old(self).content_type,
    {
        self.body_type = ResponseBody::Chunked;
        self.headers.insert(String::from_str("Transfer-Encoding"), String::from_str("chunked"));
        assert(self.header_map() =~= old(self).header_map().insert("Transfer-Encoding"@, "chunked"@));
    }
}

// ============================================================================
// File responses
// ============================================================================

/// The name a download is saved under: the one given, else the path's last
/// component, else `download`.
pub open spec fn download_name(path: Seq<char>, filename: Option<Seq<char>>) -> Seq<char> {
    match filename {
        Some(f) => f,
        None => match file_name_of(path) {
            Some(n) => n,
            None => "download"@,
        },
    }
}

/// The view of an optional string slice.
pub open spec fn opt_view(o: Option<&str>) -> Option<Seq<char>> {
    match o {
        Some(s) => Some(s@),
        None => None,
    }
}

impl Response {
    /// A download of a file whose contents were read as `data`: its content
    /// type, an `attachment` disposition and its length.
    pub fn file_from_bytes(path: &str, data: Vec<u8>, filename: Option<&str>, content_type: Option<&str>) -> (res: Self)
        ensures
            res.wf(),
            res.status == 200,
            res.content_type@ == file_content_type(path@, opt_view(content_type)),
            res.header_map() == map![
                "Content-Type"@ => res.content_type@,
                "Content-Disposition"@ => "attachment; filename=\""@ + download_name(path@, opt_view(filename)) + "\""@,
                "Content-Length"@ => dec(data@.len() as nat),
            ],
            res.body@ == data@,
            res.body_type is Bytes,
    {
        let ct = choose_content_type(path, content_type);
        let name = match filename {
            Some(f) => owned(f),
            None => match path_file_name(path) {
                Some(n) => n,
                None => String::from_str("download"),
            },
        };
        let mut disposition = String::from_str("attachment; filename=\"");
        disposition.append(name.as_str());
        disposition.append("\"");
        let mut headers: StrMap<String> = StrMap::new();
        headers.insert(String::from_str("Content-Type"), ct.clone());
        headers.insert(String::from_str("Content-Disposition"), disposition);
        headers.insert(String::from_str("Content-Length"), u64_to_string(data.len() as u64));
        let res = Response { status: 200, headers, body: data, content_type: ct, body_type: ResponseBody::Bytes(Vec::new()) };
        proof {
            reveal_strlit("Content-Type");
            reveal_strlit("Content-Disposition");
            reveal_strlit("Content-Length");
        }
        assert(res.header_map() =~= map![
            "Content-Type"@ => res.content_type@,
            "Content-Disposition"@ => "attachment; filename=\""@ + download_name(path@, opt_view(filename)) + "\""@,
            "Content-Length"@ => dec(res.body@.len() as nat),
        ]);
        res
    }

    /// A sendfile response for a file of `file_len` bytes: the body stays
    /// empty and the server sends the file at `path`.
    pub fn sendfile_sized(path: &str, file_len: u64, content_type: Option<&str>) -> (res: Self)
        ensures
            res.wf(),
            res.status == 200,
            res.content_type@ == file_content_type(path@, opt_view(content_type)),
            res.header_map() == map![
                "Content-Type"@ => res.content_type@,
                "Content-Length"@ => dec(file_len as nat),
                "X-Sendfile-Path"@ => path@,
            ],
            res.body@.len() == 0,
            res.body_type matches ResponseBody::File(p) && p@ == path@,
    {
        let ct = choose_content_type(path, content_type);
        let mut headers: StrMap<String> = StrMap::new();
        headers.insert(String::from_str("Content-Type"), ct.clone());
        headers.insert(String::from_str("Content-Length"), u64_to_string(file_len));
        headers.insert(String::from_str("X-Sendfile-Path"), owned(path));
        let res = Response { status: 200, headers, body: Vec::new(), content_type: ct, body_type: ResponseBody::File(owned(path)) };
        proof {
            reveal_strlit("Content-Type");
            reveal_strlit("Content-Length");
            reveal_strlit("X-Sendfile-Path");
        }
        assert(res.header_map() =~= map![
            "Content-Type"@ => res.content_type@,
            "Content-Length"@ => dec(file_len as nat),
            "X-Sendfile-Path"@ => path@,
        ]);
        res
    }

    /// A "206 Partial Content" sendfile response for the bytes of a file of
    /// `file_size` bytes that a `Range` header selects, or the reason it
    /// selects none.
    pub fn file_range_sized(path: &str, file_size: u64, range_header: &str, content_type: Option<&str>) -> (res: Result<Self, String>)
        ensures
            match range_of(range_header@, file_size) {
                Err(e) => res matches Err(m) && m@ == e,
                Ok((start, end)) => res matches Ok(r) && {
                    &&& r.wf()
                    &&& r.status == 206
                    &&& r.content_type@ == file_content_type(path@, opt_view(content_type))
                    &&& r.header_map() == map![
                        "Content-Type"@ => r.content_type@,
                        "Content-Length"@ => dec((end - start + 1) as nat),
                        "Content-Range"@ => "bytes "@ + dec(start as nat) + "-"@ + dec(end as nat) + "/"@ + dec(file_size as nat),
                        "Accept-Ranges"@ => "bytes"@,
                        "X-Sendfile-Path"@ => path@,
                        "X-Sendfile-Offset"@ => dec(start as nat),
                        "X-Sendfile-Length"@ => dec((end - start + 1) as nat),
                    ]
                    &&& r.body@.len() == 0
                    &&& r.body_type matches ResponseBody::File(p) && p@ == path@
                },
            },
    {
        let ct = choose_content_type(path, content_type);
        let (start, end) = match parse_range_header(range_header, file_size) {
            Ok(r) => r,
            Err(e) => return Err(e),
        };
        let content_length: u64 = end - start + 1;
        let mut range = String::from_str("bytes ");
        range.append(u64_to_string(start).as_str());
        range.append("-");
        range.append(u64_to_string(end).as_str());
        range.append("/");
        range.append(u64_to_string(file_size).as_str());
        let mut headers: StrMap<String> = StrMap::new();
        headers.insert(String::from_str("Content-Type"), ct.clone());
        headers.insert(String::from_str("Content-Length"), u64_to_string(content_length));
        headers.insert(String::from_str("Content-Range"), range);
        headers.insert(String::from_str("Accept-Ranges"), String::from_str("bytes"));
        headers.insert(String::from_str("X-Sendfile-Path"), owned(path));
        headers.insert(String::from_str("X-Sendfile-Offset"), u64_to_string(start));
        headers.insert(String::from_str("X-Sendfile-Length"), u64_to_string(content_length));
        let res = Response { status: 206, headers, body: Vec::new(), content_type: ct, body_type: ResponseBody::File(owned(path)) };
        proof {
            reveal_strlit("Content-Type");
            reveal_strlit("Content-Length");
            reveal_strlit("Content-Range");
            reveal_strlit("Accept-Ranges");
            reveal_strlit("X-Sendfile-Path");
            reveal_strlit("X-Sendfile-Offset");
            reveal_strlit("X-Sendfile-Length");
        }
        assert(res.header_map() =~= map![
            "Content-Type"@ => res.content_type@,
            "Content-Length"@ => dec((end - start + 1) as nat),
            "Content-Range"@ => "bytes "@ + dec(start as nat) + "-"@ + dec(end as nat) + "/"@ + dec(file_size as nat),
            "Accept-Ranges"@ => "bytes"@,
            "X-Sendfile-Path"@ => path@,
            "X-Sendfile-Offset"@ => dec(start as nat),
            "X-Sendfile-Length"@ => dec((end - start + 1) as nat),
        ]);
        Ok(res)
    }
}

// ============================================================================
// Content negotiation
// ============================================================================

/// One media range of an `Accept` header: the media type and the text after
/// `q=` of each of its parameters that starts so, in order. (Which of those
/// texts gives the quality is a matter of reading it as a number.)
pub struct AcceptEntry {
    pub media_type: String,
    pub q_values: Vec<String>,
}

/// The texts after `q=` of the trimmed parameters that start with `q=`.
pub open spec fn q_texts(params: Seq<Seq<char>>) -> Seq<Seq<char>>
    decreases params.len(),
{
    if params.len() == 0 {
        Seq::empty()
    } else {
        let rest = q_texts(params.drop_last());
        let p = trim(params.last());
        if is_prefix("q="@, p) {
            rest.push(p.subrange(2, p.len() as int))
        } else {
            rest
        }
    }
}

/// The media type of one comma-separated piece of an `Accept` header.
pub open spec fn piece_media_type(piece: Seq<char>) -> Seq<char> {
    trim(split_char(trim(piece), ';')[0])
}

/// The `q=` texts of one comma-separated piece of an `Accept` header.
pub open spec fn piece_q_texts(piece: Seq<char>) -> Seq<Seq<char>> {
    q_texts(split_char(trim(piece), ';').drop_first())
}

/// The `q=` texts among `params`.
fn collect_q_texts(params: &Vec<String>) -> (res: Vec<String>)
    ensures
        views(res@) == q_texts(views(params@)),
{
    let mut out: Vec<String> = Vec::new();
    let mut i: usize = 0;
    let ghost ps = views(params@);
    while i < params.len()
        invariant
            i <= params@.len(),
            ps == views(params@),
            views(out@) == q_texts(ps.subrange(0, i as int)),
        decreases params.len() - i,
    {
        assert(ps.subrange(0, i as int + 1).drop_last() =~= ps.subrange(0, i as int));
        assert(ps.subrange(0, i as int + 1).last() == params@[i as int]@);
        let p = str_trim(params[i].as_str());
        if str_starts_with(p.as_str(), "q=") {
            proof {
                reveal_strlit("q=");
            }
            let v = chars_of(p.as_str());
            let q = string_of_range(&v, 2, v.len());
            let ghost before = out@;
            out.push(q);
            assert(views(out@) =~= views(before).push(q@));
        }
        i = i + 1;
    }
    assert(ps.subrange(0, params@.len() as int) =~= ps);
    out
}

/// Split an `Accept` header into its media ranges, in order.
pub fn parse_accept(accept: &str) -> (res: Vec<AcceptEntry>)
    ensures
        res@.len() == split_char(accept@, ',').len(),
        forall|i: int| 0 <= i < res@.len() ==> {
            &&& (#[trigger] res@[i]).media_type@ == piece_media_type(split_char(accept@, ',')[i])
            &&& views(res@[i].q_values@) == piece_q_texts(split_char(accept@, ',')[i])
        },
{
    let pieces = split_str(accept, ',');
    let mut out: Vec<AcceptEntry> = Vec::new();
    let mut i: usize = 0;
    while i < pieces.len()
        invariant
            i <= pieces@.len(),
            views(pieces@) == split_char(accept@, ','),
            out@.len() == i,
            forall|k: int| 0 <= k < i ==> {
                &&& (#[trigger] out@[k]).media_type@ == piece_media_type(split_char(accept@, ',')[k])
                &&& views(out@[k].q_values@) == piece_q_texts(split_char(accept@, ',')[k])
            },
        decreases pieces.len() - i,
    {
        assert(views(pieces@)[i as int] == pieces@[i as int]@);
        let t = str_trim(pieces[i].as_str());
        let params = split_str(t.as_str(), ';');
        assert(views(params@)[0] == params@[0]@);
        let media = str_trim(params[0].as_str());
        let mut rest: Vec<String> = Vec::new();
        let mut j: usize = 1;
        while j < params.len()
            invariant
                1 <= j <= params@.len(),
                views(rest@) == views(params@).subrange(1, j as int),
            decreases params.len() - j,
        {
            let ghost before = rest@;
            rest.push(params[j].clone());
            assert(views(rest@) =~= views(before).push(params@[j as int]@));
            j = j + 1;
            assert(views(rest@) =~= views(params@).subrange(1, j as int));
        }
        assert(views(params@).subrange(1, params@.len() as int) =~= views(params@).drop_first());
        let qs = collect_q_texts(&rest);
        out.push(AcceptEntry { media_type: media, q_values: qs });
        i = i + 1;
    }
    out
}

/// The first of `available` that starts with `p`.
pub open spec fn first_with_prefix(available: Seq<Seq<char>>, p: Seq<char>) -> Option<Seq<char>>
    decreases available.len(),
{
    if available.len() == 0 {
        None
    } else if is_prefix(p, available[0]) {
        Some(available[0])
    } else {
        first_with_prefix(available.drop_first(), p)
    }
}

/// The type chosen for media ranges taken in order of preference: `*/*` takes
/// the first available type (or none, when none is available); a type that is
/// available is taken; `type/*` takes the first available type that starts
/// with `type`; otherwise the next range is tried.
pub open spec fn pick_media(ordered: Seq<Seq<char>>, available: Seq<Seq<char>>) -> Option<Seq<char>>
    decreases ordered.len(),
{
    if ordered.len() == 0 {
        None
    } else {
        let m = ordered[0];
        if m == "*/*"@ {
            if available.len() > 0 { Some(available[0]) } else { None }
        } else if available.contains(m) {
            Some(m)
        } else {
            let next = pick_media(ordered.drop_first(), available);
            match first_index_of(m, '/') {
                Some(i) => if is_suffix("/*"@, m) {
                    match first_with_prefix(available, m.subrange(0, i)) {
                        Some(a) => Some(a),
                        None => next,
                    }
                } else {
                    next
                },
                None => next,
            }
        }
    }
}

/// Choose among `available` for media ranges in order of preference.
pub fn pick_media_type(ordered: &Vec<String>, available: &Vec<&str>) -> (res: Option<String>)
    ensures
        match pick_media(views(ordered@), crate::text::ref_views(available@)) {
            Some(m) => res matches Some(r) && r@ == m,
            None => res is None,
        },
{
    let ghost os = views(ordered@);
    let ghost av = crate::text::ref_views(available@);
    let mut i: usize = 0;
    assert(os.subrange(0, os.len() as int) =~= os);
    while i < ordered.len()
        invariant
            i <= ordered@.len(),
            os == views(ordered@),
            av == crate::text::ref_views(available@),
            pick_media(os, av) == pick_media(os.subrange(i as int, os.len() as int), av),
        decreases ordered.len() - i,
    {
        let ghost rest = os.subrange(i as int, os.len() as int);
        assert(rest[0] == ordered@[i as int]@);
        assert(rest.drop_first() =~= os.subrange(i as int + 1, os.len() as int));
        let m = ordered[i].as_str();
        if str_eq(m, "*/*") {
            if available.len() > 0 {
                assert(av[0] == available@[0]@);
                return Some(owned(available[0]));
            }
            return None;
        }
        let ghost rest = os.subrange(i as int, os.len() as int);
        let mut k: usize = 0;
        while k < available.len()
            invariant
                k <= available@.len(),
                i < ordered@.len(),
                os == views(ordered@),
                rest == os.subrange(i as int, os.len() as int),
                rest[0] == m@,
                m@ != "*/*"@,
                pick_media(os, av) == pick_media(rest, av),
                av == crate::text::ref_views(available@),
                forall|x: int| 0 <= x < k ==> av[x] != m@,
            decreases available.len() - k,
        {
            if str_eq(available[k], m) {
                assert(av[k as int] == m@);
                assert(av.contains(m@));
                return Some(owned(m));
            }
            k = k + 1;
        }
        assert(!av.contains(m@));
        let mv = chars_of(m);
        match crate::text::find_char(&mv, '/') {
            Some(slash) => {
                let star = chars_of("/*");
                if crate::text::ends_with(&mv, &star) {
                    let type_part = string_of_range(&mv, 0, slash);
                    let mut a: usize = 0;
                    assert(av.subrange(0, av.len() as int) =~= av);
                    proof {
                        reveal_strlit("/*");
                    }
                    assert(pick_media(os, av) == match first_with_prefix(av, type_part@) {
                        Some(x) => Some(x),
                        None => pick_media(os.subrange(i as int + 1, os.len() as int), av),
                    });
                    while a < available.len()
                        invariant
                            a <= available@.len(),
                            i < ordered@.len(),
                            os == views(ordered@),
                            av == crate::text::ref_views(available@),
                            pick_media(os, av) == match first_with_prefix(av, type_part@) {
                                Some(x) => Some(x),
                                None => pick_media(os.subrange(i as int + 1, os.len() as int), av),
                            },
                            first_with_prefix(av, type_part@) == first_with_prefix(av.subrange(a as int, av.len() as int), type_part@),
                        decreases available.len() - a,
                    {
                        let ghost ar = av.subrange(a as int, av.len() as int);
                        assert(ar[0] == available@[a as int]@);
                        assert(ar.drop_first() =~= av.subrange(a as int + 1, av.len() as int));
                        if str_starts_with(available[a], type_part.as_str()) {
                            assert(first_with_prefix(ar, type_part@) == Some(ar[0]));
                            return Some(owned(available[a]));
                        }
                        a = a + 1;
                    }
                    assert(av.subrange(av.len() as int, av.len() as int) =~= Seq::<Seq<char>>::empty());
                }
            },
            None => {},
        }
        i = i + 1;
    }
    None
}

} // verus!
