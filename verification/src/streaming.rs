//! Streaming bodies and Server-Sent Events: stream items, chunked bodies in
//! first-in first-out order, file bodies for range requests, and the SSE text
//! format.
use vstd::prelude::*;
use vstd::string::*;
use std::collections::VecDeque;
use crate::text::{append_u64, chars_of, dec, owned, push_char, split_char, split_str};

verus! {

// ============================================================================
// Stream items and errors
// ============================================================================

/// A single item in a stream.
pub enum StreamItem {
    /// Chunk of data
    Data(Vec<u8>),
    /// End of stream
    End,
    /// Error occurred
    Error(String),
}

impl StreamItem {
    /// A data chunk.
    pub fn data(data: Vec<u8>) -> (res: Self)
        ensures
            res matches StreamItem::Data(d) && d == data,
    {
        StreamItem::Data(data)
    }

    /// A data chunk holding the UTF-8 bytes of `text`.
    pub fn text(text: &str) -> (res: Self)
        ensures
            res matches StreamItem::Data(d) && d@ == text.spec_bytes(),
    {
        StreamItem::Data(vstd::slice::slice_to_vec(text.as_bytes()))
    }

    /// The end marker.
    pub fn end() -> (res: Self)
        ensures
            res is End,
    {
        StreamItem::End
    }

    /// An error item.
    pub fn error(msg: &str) -> (res: Self)
        ensures
            res matches StreamItem::Error(m) && m@ == msg@,
    {
        StreamItem::Error(owned(msg))
    }

    /// Whether this is the end marker.
    pub fn is_end(&self) -> (res: bool)
        ensures
            res == (*self is End),
    {
        match self {
            StreamItem::End => true,
            _ => false,
        }
    }

    /// Whether this is an error.
    pub fn is_error(&self) -> (res: bool)
        ensures
            res == (*self is Error),
    {
        match self {
            StreamItem::Error(_) => true,
            _ => false,
        }
    }

    /// The data, if this is a data chunk.
    pub fn into_data(self) -> (res: Option<Vec<u8>>)
        ensures
            match self {
                StreamItem::Data(d) => res == Some(d),
                _ => res is None,
            },
    {
        match self {
            StreamItem::Data(d) => Some(d),
            _ => None,
        }
    }
}

/// Stream producer error.
#[derive(Debug)]
pub enum StreamError {
    /// Stream was closed
    Closed,
    /// Buffer is full (backpressure)
    BufferFull,
    /// Other error
    Other(String),
}

impl StreamError {
    /// The error message.
    pub fn to_string(&self) -> (res: String)
        ensures
            res@ == match self {
                StreamError::Closed => "Stream closed"@,
                StreamError::BufferFull => "Buffer full"@,
                StreamError::Other(m) => m@,
            },
    {
        match self {
            StreamError::Closed => String::from_str("Stream closed"),
            StreamError::BufferFull => String::from_str("Buffer full"),
            StreamError::Other(m) => m.clone(),
        }
    }
}

// ============================================================================
// Chunked body
// ============================================================================

/// A chunked transfer-encoding body: chunks are read in the order written, and
/// nothing is accepted once writing has finished.
pub struct ChunkedBody {
    pub chunks: VecDeque<Vec<u8>>,
    pub complete: bool,
}

impl ChunkedBody {
    /// An empty body, still open for writing.
    pub fn new() -> (res: Self)
        ensures
            res.chunks@.len() == 0,
            !res.complete,
    {
        ChunkedBody { chunks: VecDeque::new(), complete: false }
    }

    /// Write a chunk; ignored once writing has finished.
    pub fn write(&mut self, data: Vec<u8>)
        ensures
            old(self).complete ==> final(self).chunks@ == old(self).chunks@,
            !old(self).complete ==> final(self).chunks@ == old(self).chunks@.push(data),
            final(self).complete == old(self).complete,
    {
        if !self.complete {
            self.chunks.push_back(data);
        }
    }

    /// Write the UTF-8 bytes of `text` as a chunk.
    pub fn write_text(&mut self, text: &str)
        ensures
            old(self).complete ==> final(self).chunks@ == old(self).chunks@,
            !old(self).complete ==> final(self).chunks@.len() == old(self).chunks@.len() + 1
                && final(self).chunks@.drop_last() == old(self).chunks@
                && final(self).chunks@.last()@ == text.spec_bytes(),
            final(self).complete == old(self).complete,
    {
        self.write(vstd::slice::slice_to_vec(text.as_bytes()));
    }

    /// Finish writing.
    pub fn finish(&mut self)
        ensures
            final(self).complete,
            final(self).chunks@ == old(self).chunks@,
    {
        self.complete = true;
    }

    /// The next chunk, oldest first.
    pub fn next_chunk(&mut self) -> (res: Option<Vec<u8>>)
        ensures
            old(self).chunks@.len() == 0 ==> res is None && final(self).chunks@ == old(self).chunks@,
            old(self).chunks@.len() > 0 ==> res == Some(old(self).chunks@[0])
                && final(self).chunks@ == old(self).chunks@.drop_first(),
            final(self).complete == old(self).complete,
    {
        self.chunks.pop_front()
    }

    /// Whether writing has finished and every chunk has been read.
    pub fn is_complete(&self) -> (res: bool)
        ensures
            res == (self.complete && self.chunks@.len() == 0),
    {
        self.complete && self.chunks.len() == 0
    }

    /// Whether chunks are waiting to be read.
    pub fn has_chunks(&self) -> (res: bool)
        ensures
            res == (self.chunks@.len() > 0),
    {
        self.chunks.len() > 0
    }
}

/// Chunks come out in the order they went in: writing `a` then `b` to an open
/// empty body, then reading twice, gives `a` then `b`.
pub proof fn lemma_chunks_fifo(before: Seq<Vec<u8>>, a: Vec<u8>, b: Vec<u8>)
    requires
        before.len() == 0,
    ensures
        before.push(a).push(b)[0] == a,
        before.push(a).push(b).drop_first()[0] == b,
        before.push(a).push(b).drop_first().drop_first().len() == 0,
{
}

// ============================================================================
// File body
// ============================================================================

/// The name of `mime_guess::from_path(path).first_or_octet_stream()`, as text:
/// the content type guessed from a path's extension.
pub uninterp spec fn guessed_mime(path: Seq<char>) -> Seq<char>;

/// `mime_guess::from_path(path).first_or_octet_stream().to_string()`; the result
/// is named by `guessed_mime`.
#[verifier::external_body]
pub(crate) fn guess_mime(path: &str) -> (res: String)
    ensures
        res@ == guessed_mime(path@),
{
    mime_guess::from_path(path).first_or_octet_stream().to_string()
}

/// A file body for sendfile responses.
pub struct FileBody {
    /// Path to the file
    pub path: String,
    /// Start offset
    pub offset: u64,
    /// Length to send (None = entire file from offset)
    pub length: Option<u64>,
    /// Content type
    pub content_type: String,
}

impl FileBody {
    /// The whole file at `path`, with the content type its extension suggests.
    pub fn new(path: &str) -> (res: Self)
        ensures
            res.path@ == path@,
            res.offset == 0,
            res.length is None,
            res.content_type@ == guessed_mime(path@),
    {
        FileBody { path: owned(path), offset: 0, length: None, content_type: guess_mime(path) }
    }

    /// Set the start offset.
    pub fn offset(self, offset: u64) -> (res: Self)
        ensures
            res == (FileBody { offset, ..self }),
    {
        let mut f = self;
        f.offset = offset;
        f
    }

    /// Set the length to send.
    pub fn length(self, length: u64) -> (res: Self)
        ensures
            res == (FileBody { length: Some(length), ..self }),
    {
        let mut f = self;
        f.length = Some(length);
        f
    }

    /// Set the content type.
    pub fn content_type(self, content_type: &str) -> (res: Self)
        ensures
            res.content_type@ == content_type@,
            res == (FileBody { content_type: res.content_type, ..self }),
    {
        let mut f = self;
        f.content_type = owned(content_type);
        f
    }

    /// The number of bytes to send from a file of `file_size` bytes: what lies
    /// after the offset, cut to the length when one is set.
    pub fn content_length_of(&self, file_size: u64) -> (res: u64)
        ensures
            res == ({
                let remaining: int = if file_size >= self.offset { file_size - self.offset } else { 0 };
                match self.length {
                    Some(l) => if (l as int) < remaining { l as int } else { remaining },
                    None => remaining,
                }
            }),
    {
        let remaining = file_size.saturating_sub(self.offset);
        let wanted = match self.length {
            Some(l) => l,
            None => remaining,
        };
        if wanted < remaining {
            wanted
        } else {
            remaining
        }
    }
}

// ============================================================================
// Server-Sent Events
// ============================================================================

/// `s` without carriage returns and line feeds.
pub open spec fn strip_crlf(s: Seq<char>) -> Seq<char>
    decreases s.len(),
{
    if s.len() == 0 {
        s
    } else if s.last() == '\r' || s.last() == '\n' {
        strip_crlf(s.drop_last())
    } else {
        strip_crlf(s.drop_last()).push(s.last())
    }
}

/// Removes carriage returns and line feeds (for single-line SSE fields).
pub fn strip_newlines(value: &str) -> (res: String)
    ensures
        res@ == strip_crlf(value@),
{
    let v = chars_of(value);
    let mut out = String::new();
    let mut i: usize = 0;
    while i < v.len()
        invariant
            v@ == value@,
            i <= v@.len(),
            out@ == strip_crlf(v@.subrange(0, i as int)),
        decreases v.len() - i,
    {
        assert(v@.subrange(0, i as int + 1).drop_last() =~= v@.subrange(0, i as int));
        if v[i] != '\r' && v[i] != '\n' {
            push_char(&mut out, v[i]);
        }
        i = i + 1;
    }
    assert(v@.subrange(0, v@.len() as int) =~= v@);
    out
}

/// A line without its trailing carriage return, if any.
pub open spec fn chomp_cr(l: Seq<char>) -> Seq<char> {
    if l.len() > 0 && l.last() == '\r' {
        l.drop_last()
    } else {
        l
    }
}

/// The lines of `s` (`str::lines`): split at `\n`, each without a trailing
/// `\r`, and no empty line after a final line ending.
pub open spec fn text_lines(s: Seq<char>) -> Seq<Seq<char>> {
    let pieces = split_char(s, '\n');
    let kept = if pieces.last().len() == 0 { pieces.drop_last() } else { pieces };
    kept.map_values(|l: Seq<char>| chomp_cr(l))
}

/// `data: line` for each line, each ended by `\n`.
pub open spec fn data_lines(lines: Seq<Seq<char>>) -> Seq<char>
    decreases lines.len(),
{
    if lines.len() == 0 {
        Seq::empty()
    } else {
        data_lines(lines.drop_last()) + "data: "@ + lines.last() + "\n"@
    }
}

/// Appends `data: line\n` for each line of `data`.
fn append_data_lines(out: &mut String, data: &str)
    ensures
        final(out)@ == old(out)@ + data_lines(text_lines(data@)),
{
    let pieces = split_str(data, '\n');
    let ghost ps = split_char(data@, '\n');
    let n = pieces.len();
    let count = if pieces[n - 1].unicode_len() == 0 { n - 1 } else { n };
    let ghost kept = if ps.last().len() == 0 { ps.drop_last() } else { ps };
    assert(kept.len() == count);
    let ghost lines = text_lines(data@);
    let ghost start = out@;
    let mut i: usize = 0;
    assert(lines.subrange(0, 0) =~= Seq::<Seq<char>>::empty());
    while i < count
        invariant
            views_eq(pieces@, ps),
            ps == split_char(data@, '\n'),
            kept.len() == count,
            count <= pieces@.len(),
            kept == (if ps.last().len() == 0 { ps.drop_last() } else { ps }),
            lines == text_lines(data@),
            i <= count,
            out@ == start + data_lines(lines.subrange(0, i as int)),
        decreases count - i,
    {
        let piece = pieces[i].as_str();
        let pv = chars_of(piece);
        let m = pv.len();
        let end = if m > 0 && pv[m - 1] == '\r' { m - 1 } else { m };
        out.append("data: ");
        crate::text::append_range(out, &pv, 0, end);
        out.append("\n");
        proof {
            assert(kept[i as int] == ps[i as int]);
            assert(lines[i as int] == chomp_cr(ps[i as int]));
            if m > 0 && pv@[m - 1] == '\r' {
                assert(pv@.subrange(0, end as int) =~= pv@.drop_last());
            } else {
                assert(pv@.subrange(0, end as int) =~= pv@);
            }
            assert(lines.subrange(0, i as int + 1).drop_last() =~= lines.subrange(0, i as int));
            assert(out@ =~= start + data_lines(lines.subrange(0, i as int + 1)));
        }
        i = i + 1;
    }
    assert(lines.subrange(0, count as int) =~= lines);
}

/// The pieces of a split, as character sequences, equal `ps`.
pub open spec fn views_eq(v: Seq<String>, ps: Seq<Seq<char>>) -> bool {
    crate::text::views(v) == ps
}

/// The SSE text of an event: `event:` and `id:` lines (newlines stripped),
/// a `data:` line per line of data, and a blank line.
pub open spec fn spec_sse_event(event: Option<Seq<char>>, data: Seq<char>, id: Option<Seq<char>>) -> Seq<char> {
    (match event { Some(e) => "event: "@ + strip_crlf(e) + "\n"@, None => Seq::empty() })
        + (match id { Some(i) => "id: "@ + strip_crlf(i) + "\n"@, None => Seq::empty() })
        + data_lines(text_lines(data)) + "\n"@
}

/// Format data for Server-Sent Events.
pub fn sse_event(event: Option<&str>, data: &str, id: Option<&str>) -> (res: String)
    ensures
        res@ == spec_sse_event(
            match event { Some(e) => Some(e@), None => None },
            data@,
            match id { Some(i) => Some(i@), None => None },
        ),
{
    let mut output = String::new();
    match event {
        Some(e) => {
            output.append("event: ");
            let s = strip_newlines(e);
            output.append(s.as_str());
            output.append("\n");
        },
        None => {},
    }
    let ghost a = output@;
    match id {
        Some(i) => {
            output.append("id: ");
            let s = strip_newlines(i);
            output.append(s.as_str());
            output.append("\n");
        },
        None => {},
    }
    let ghost b = output@;
    append_data_lines(&mut output, data);
    output.append("\n");
    proof {
        let ev: Seq<char> = match event { Some(e) => "event: "@ + strip_crlf(e@) + "\n"@, None => Seq::empty() };
        let idl: Seq<char> = match id { Some(i) => "id: "@ + strip_crlf(i@) + "\n"@, None => Seq::empty() };
        assert(a =~= ev);
        assert(b =~= ev + idl);
    }
    output
}

/// Format a retry directive for SSE.
pub fn sse_retry(milliseconds: u64) -> (res: String)
    ensures
        res@ == "retry: "@ + dec(milliseconds as nat) + "\n\n"@,
{
    let mut s = String::from_str("retry: ");
    append_u64(&mut s, milliseconds);
    s.append("\n\n");
    s
}

/// Format a comment for SSE (used as keepalive).
pub fn sse_comment(comment: &str) -> (res: String)
    ensures
        res@ == ": "@ + comment@ + "\n\n"@,
{
    let mut s = String::from_str(": ");
    s.append(comment);
    s.append("\n\n");
    s
}

/// An SSE event with optional type, id and retry interval.
pub struct SseEvent {
    pub event: Option<String>,
    pub data: String,
    pub id: Option<String>,
    pub retry: Option<u32>,
}

impl SseEvent {
    /// The SSE text: `id:`, `event:` (newlines stripped), `retry:`, a `data:`
    /// line per line of data, and a blank line.
    pub open spec fn spec_text(&self) -> Seq<char> {
        (match self.id { Some(i) => "id: "@ + strip_crlf(i@) + "\n"@, None => Seq::empty() })
            + (match self.event { Some(e) => "event: "@ + strip_crlf(e@) + "\n"@, None => Seq::empty() })
            + (match self.retry { Some(r) => "retry: "@ + dec(r as nat) + "\n"@, None => Seq::empty() })
            + data_lines(text_lines(self.data@)) + "\n"@
    }

    /// An event with data and optional type, id and retry.
    pub fn new(data: &str, event: Option<&str>, id: Option<&str>, retry: Option<u32>) -> (res: Self)
        ensures
            res.data@ == data@,
            match event { Some(e) => res.event matches Some(x) && x@ == e@, None => res.event is None },
            match id { Some(i) => res.id matches Some(x) && x@ == i@, None => res.id is None },
            res.retry == retry,
    {
        SseEvent {
            event: match event { Some(e) => Some(owned(e)), None => None },
            data: owned(data),
            id: match id { Some(i) => Some(owned(i)), None => None },
            retry,
        }
    }

    /// A data-only event.
    pub fn from_data(content: &str) -> (res: Self)
        ensures
            res.data@ == content@,
            res.event is None,
            res.id is None,
            res.retry is None,
    {
        SseEvent { event: None, data: owned(content), id: None, retry: None }
    }

    /// An event with a type and data.
    pub fn from_event(event_type: &str, content: &str) -> (res: Self)
        ensures
            res.data@ == content@,
            res.event matches Some(e) && e@ == event_type@,
            res.id is None,
            res.retry is None,
    {
        SseEvent { event: Some(owned(event_type)), data: owned(content), id: None, retry: None }
    }

    /// Format the event as SSE text.
    pub fn to_sse_string(&self) -> (res: String)
        ensures
            res@ == self.spec_text(),
    {
        let mut result = String::new();
        match &self.id {
            Some(i) => {
                result.append("id: ");
                let s = strip_newlines(i.as_str());
                result.append(s.as_str());
                result.append("\n");
            },
            None => {},
        }
        let ghost a = result@;
        match &self.event {
            Some(e) => {
                result.append("event: ");
                let s = strip_newlines(e.as_str());
                result.append(s.as_str());
                result.append("\n");
            },
            None => {},
        }
        let ghost b = result@;
        match self.retry {
            Some(r) => {
                result.append("retry: ");
                append_u64(&mut result, r as u64);
                result.append("\n");
            },
            None => {},
        }
        let ghost c = result@;
        append_data_lines(&mut result, self.data.as_str());
        result.append("\n");
        proof {
            let idl: Seq<char> = match &self.id { Some(i) => "id: "@ + strip_crlf(i@) + "\n"@, None => Seq::empty() };
            let ev: Seq<char> = match &self.event { Some(e) => "event: "@ + strip_crlf(e@) + "\n"@, None => Seq::empty() };
            let rt: Seq<char> = match self.retry { Some(r) => "retry: "@ + dec(r as nat) + "\n"@, None => Seq::empty() };
            assert(a =~= idl);
            assert(b =~= idl + ev);
            assert(c =~= idl + ev + rt);
        }
        result
    }

    /// The event's text as bytes.
    pub fn to_bytes(&self) -> (res: Vec<u8>)
        ensures
            res@ == vstd::utf8::encode_utf8(self.spec_text()),
    {
        let s = self.to_sse_string();
        vstd::slice::slice_to_vec(s.as_str().as_bytes())
    }
}

/// A keep-alive event: no type, empty data.
pub fn sse_keepalive() -> (res: SseEvent)
    ensures
        res.data@.len() == 0,
        res.event is None,
        res.id is None,
        res.retry is None,
{
    SseEvent { event: None, data: String::new(), id: None, retry: None }
}

/// The headers of an SSE response.
pub fn sse_headers() -> (res: Vec<(&'static str, &'static str)>)
    ensures
        res@.map_values(|h: (&str, &str)| (h.0@, h.1@)) == seq![
            ("Content-Type"@, "text/event-stream"@),
            ("Cache-Control"@, "no-cache"@),
            ("Connection"@, "keep-alive"@),
            ("X-Accel-Buffering"@, "no"@),
        ],
{
    let v = vec![
        ("Content-Type", "text/event-stream"),
        ("Cache-Control", "no-cache"),
        ("Connection", "keep-alive"),
        ("X-Accel-Buffering", "no"),
    ];
    assert(v@.map_values(|h: (&str, &str)| (h.0@, h.1@)) =~= seq![
        ("Content-Type"@, "text/event-stream"@),
        ("Cache-Control"@, "no-cache"@),
        ("Connection"@, "keep-alive"@),
        ("X-Accel-Buffering"@, "no"@),
    ]);
    v
}

/// A sequence of SSE events.
pub struct SseStream {
    pub events: Vec<SseEvent>,
}

impl SseStream {
    /// An empty stream.
    pub fn new() -> (res: Self)
        ensures
            res.events@.len() == 0,
    {
        SseStream { events: Vec::new() }
    }

    /// Add an event.
    pub fn add(&mut self, event: SseEvent)
        ensures
            final(self).events@ == old(self).events@.push(event),
    {
        self.events.push(event);
    }

    /// Add a data-only event.
    pub fn add_data(&mut self, data: &str)
        ensures
            final(self).events@.len() == old(self).events@.len() + 1,
            final(self).events@.drop_last() == old(self).events@,
            final(self).events@.last().data@ == data@,
            final(self).events@.last().event is None,
    {
        self.events.push(SseEvent::from_data(data));
        assert(self.events@.drop_last() =~= old(self).events@);
    }

    /// Add an event with a type and data.
    pub fn add_event(&mut self, event_type: &str, data: &str)
        ensures
            final(self).events@.len() == old(self).events@.len() + 1,
            final(self).events@.drop_last() == old(self).events@,
            final(self).events@.last().data@ == data@,
            final(self).events@.last().event matches Some(e) && e@ == event_type@,
    {
        self.events.push(SseEvent::from_event(event_type, data));
        assert(self.events@.drop_last() =~= old(self).events@);
    }

    /// The number of events.
    pub fn len(&self) -> (res: usize)
        ensures
            res == self.events@.len(),
    {
        self.events.len()
    }

    /// Whether there are no events.
    pub fn is_empty(&self) -> (res: bool)
        ensures
            res == (self.events@.len() == 0),
    {
        self.events.len() == 0
    }
}

} // verus!
