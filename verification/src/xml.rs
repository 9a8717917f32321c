//! XML output for JSON-shaped values: objects become elements (members whose
//! key starts with the attribute prefix become attributes, the text key becomes
//! the text), arrays repeat their element, and scalars become text.  The
//! document is written with the `quick-xml` writer.
use vstd::prelude::*;
use crate::http::JsonValue;
use crate::text::{owned, str_eq, str_starts_with, is_prefix, chars_of, string_of_range};

verus! {

// ============================================================================
// Configuration
// ============================================================================

/// XML output configuration.
pub struct XmlConfig {
    pub declaration: bool,
    pub version: String,
    pub encoding: String,
    pub root_name: String,
    /// Spaces per level of nesting, or no indentation and no line breaks.
    pub indent: Option<usize>,
    /// Object keys with this prefix become attributes.
    pub attr_prefix: String,
    /// The object key whose string value becomes the element's text.
    pub text_key: String,
    pub cdata_key: String,
}

impl XmlConfig {
    /// A declaration for XML 1.0 in UTF-8, root element `root`, two-space
    /// indentation, `@` for attributes, `#text` for text.
    pub fn new() -> (res: Self)
        ensures
            res.declaration,
            res.version@ == "1.0"@,
            res.encoding@ == "UTF-8"@,
            res.root_name@ == "root"@,
            res.indent == Some(2usize),
            res.attr_prefix@ == "@"@,
            res.text_key@ == "#text"@,
            res.cdata_key@ == "#cdata"@,
    {
        XmlConfig {
            declaration: true,
            version: String::from_str("1.0"),
            encoding: String::from_str("UTF-8"),
            root_name: String::from_str("root"),
            indent: Some(2),
            attr_prefix: String::from_str("@"),
            text_key: String::from_str("#text"),
            cdata_key: String::from_str("#cdata"),
        }
    }

    /// Leave out the declaration.
    pub fn no_declaration(self) -> (res: Self)
        ensures
            res == (XmlConfig { declaration: false, ..self }),
    {
        let mut c = self;
        c.declaration = false;
        c
    }

    /// Set the root element's name.
    pub fn root(self, name: &str) -> (res: Self)
        ensures
            res.root_name@ == name@,
            res == (XmlConfig { root_name: res.root_name, ..self }),
    {
        let mut c = self;
        c.root_name = owned(name);
        c
    }

    /// No indentation and no line breaks.
    pub fn no_indent(self) -> (res: Self)
        ensures
            res == (XmlConfig { indent: None, ..self }),
    {
        let mut c = self;
        c.indent = None;
        c
    }

    /// Indent by `spaces` per level.
    pub fn indent(self, spaces: usize) -> (res: Self)
        ensures
            res == (XmlConfig { indent: Some(spaces), ..self }),
    {
        let mut c = self;
        c.indent = Some(spaces);
        c
    }

    /// Set the attribute prefix.
    pub fn attr_prefix(self, prefix: &str) -> (res: Self)
        ensures
            res.attr_prefix@ == prefix@,
            res == (XmlConfig { attr_prefix: res.attr_prefix, ..self }),
    {
        let mut c = self;
        c.attr_prefix = owned(prefix);
        c
    }
}

/// XML serialization error.
pub enum XmlError {
    Serialization(String),
    Write(String),
    Encoding(String),
    Python(String),
}

impl XmlError {
    /// The error as text.
    pub fn to_string(&self) -> (res: String)
        ensures
            res@ == match self {
                XmlError::Serialization(e) => "XML serialization error: "@ + e@,
                XmlError::Write(e) => "XML write error: "@ + e@,
                XmlError::Encoding(e) => "XML encoding error: "@ + e@,
                XmlError::Python(e) => "Python conversion error: "@ + e@,
            },
    {
        let (mut s, e) = match self {
            XmlError::Serialization(e) => (String::from_str("XML serialization error: "), e),
            XmlError::Write(e) => (String::from_str("XML write error: "), e),
            XmlError::Encoding(e) => (String::from_str("XML encoding error: "), e),
            XmlError::Python(e) => (String::from_str("Python conversion error: "), e),
        };
        s.append(e.as_str());
        s
    }
}

// ============================================================================
// The writer
// ============================================================================

#[verifier::external_type_specification]
#[verifier::external_body]
#[verifier::reject_recursive_types(W)]
pub struct ExXmlWriter<W>(quick_xml::Writer<W>);

/// The bytes a `quick-xml` writer into a byte vector has written.
pub uninterp spec fn xml_written(w: quick_xml::Writer<Vec<u8>>) -> Seq<u8>;

/// Escaping of text (`quick_xml::escape::escape`): `<`, `>`, `&`, `'`, `"`
/// and carriage return become references.
pub open spec fn escape_text(s: Seq<char>) -> Seq<char>
    decreases s.len(),
{
    if s.len() == 0 {
        s
    } else {
        let c = s[0];
        let head = if c == '<' {
            "&lt;"@
        } else if c == '>' {
            "&gt;"@
        } else if c == '&' {
            "&amp;"@
        } else if c == '\'' {
            "&apos;"@
        } else if c == '"' {
            "&quot;"@
        } else if c == '\r' {
            "&#13;"@
        } else {
            seq![c]
        };
        head + escape_text(s.drop_first())
    }
}

/// Escaping of attribute values: that of text, and also tab and line feed.
pub open spec fn escape_attr(s: Seq<char>) -> Seq<char>
    decreases s.len(),
{
    if s.len() == 0 {
        s
    } else {
        let c = s[0];
        let head = if c == '\t' {
            "&#9;"@
        } else if c == '\n' {
            "&#10;"@
        } else {
            escape_text(seq![c])
        };
        head + escape_attr(s.drop_first())
    }
}

/// The attributes of a tag: ` key="value"` each, values escaped.
pub open spec fn attrs_text(attrs: Seq<(Seq<char>, Seq<char>)>) -> Seq<char>
    decreases attrs.len(),
{
    if attrs.len() == 0 {
        Seq::empty()
    } else {
        attrs_text(attrs.drop_last()) + " "@ + attrs.last().0 + "=\""@ + escape_attr(attrs.last().1) + "\""@
    }
}

/// The views of a list of string pairs.
pub open spec fn pair_views(v: Seq<(String, String)>) -> Seq<(Seq<char>, Seq<char>)> {
    v.map_values(|p: (String, String)| (p.0@, p.1@))
}

/// A new writer into an empty byte vector, without indentation.
#[verifier::external_body]
fn xml_writer() -> (res: quick_xml::Writer<Vec<u8>>)
    ensures
        xml_written(res) == Seq::<u8>::empty(),
{
    quick_xml::Writer::new(Vec::new())
}

/// The bytes written.
#[verifier::external_body]
fn xml_bytes(w: quick_xml::Writer<Vec<u8>>) -> (res: Vec<u8>)
    ensures
        res@ == xml_written(w),
{
    w.into_inner()
}

/// Write the declaration `<?xml version="…" encoding="…"?>`. The writer only
/// fails when its sink does, and a `Vec` never does.
#[verifier::external_body]
fn write_decl(w: &mut quick_xml::Writer<Vec<u8>>, version: &str, encoding: &str) -> (res: Result<(), String>)
    ensures
        res is Ok,
        res is Ok ==> xml_written(*final(w)) == xml_written(*old(w)) + vstd::utf8::encode_utf8(
            "<?xml version=\""@ + version@ + "\" encoding=\""@ + encoding@ + "\"?>"@),
{
    let decl = quick_xml::events::BytesDecl::new(version, Some(encoding), None);
    w.write_event(quick_xml::events::Event::Decl(decl)).map_err(|e| e.to_string())
}

/// Write a start tag (`empty` false) or an empty-element tag (`empty` true)
/// with attributes (into a `Vec`, which cannot fail).
#[verifier::external_body]
fn write_tag(w: &mut quick_xml::Writer<Vec<u8>>, name: &str, attrs: &Vec<(String, String)>, empty: bool) -> (res: Result<(), String>)
    ensures
        res is Ok,
        res is Ok ==> xml_written(*final(w)) == xml_written(*old(w)) + vstd::utf8::encode_utf8(
            "<"@ + name@ + attrs_text(pair_views(attrs@)) + (if empty { "/>"@ } else { ">"@ })),
{
    let mut elem = quick_xml::events::BytesStart::new(name);
    for (k, v) in attrs.iter() {
        elem.push_attribute((k.as_str(), v.as_str()));
    }
    let event = if empty { quick_xml::events::Event::Empty(elem) } else { quick_xml::events::Event::Start(elem) };
    w.write_event(event).map_err(|e| e.to_string())
}

/// Write an end tag (into a `Vec`, which cannot fail).
#[verifier::external_body]
fn write_end(w: &mut quick_xml::Writer<Vec<u8>>, name: &str) -> (res: Result<(), String>)
    ensures
        res is Ok,
        res is Ok ==> xml_written(*final(w)) == xml_written(*old(w)) + vstd::utf8::encode_utf8("</"@ + name@ + ">"@),
{
    w.write_event(quick_xml::events::Event::End(quick_xml::events::BytesEnd::new(name))).map_err(|e| e.to_string())
}

/// Write escaped text (into a `Vec`, which cannot fail).
#[verifier::external_body]
fn write_text(w: &mut quick_xml::Writer<Vec<u8>>, text: &str) -> (res: Result<(), String>)
    ensures
        res is Ok,
        res is Ok ==> xml_written(*final(w)) == xml_written(*old(w)) + vstd::utf8::encode_utf8(escape_text(text@)),
{
    w.write_event(quick_xml::events::Event::Text(quick_xml::events::BytesText::new(text))).map_err(|e| e.to_string())
}

// ============================================================================
// What is written
// ============================================================================

/// `n` spaces.
pub open spec fn spaces(n: nat) -> Seq<char> {
    Seq::new(n, |i: int| ' ')
}

/// The indentation at a depth of nesting.
pub open spec fn pad(c: XmlConfig, depth: nat) -> Seq<char> {
    match c.indent {
        Some(n) => spaces((depth * n) as nat),
        None => Seq::empty(),
    }
}

/// A line break, when indenting.
pub open spec fn newline(c: XmlConfig) -> Seq<char> {
    if c.indent is Some { "\n"@ } else { Seq::empty() }
}

/// Whether an object member becomes an attribute (its key has the prefix).
pub open spec fn is_attr_key(c: XmlConfig, key: Seq<char>) -> bool {
    is_prefix(c.attr_prefix@, key)
}

/// Whether an object member becomes a child element.
pub open spec fn is_child_key(c: XmlConfig, key: Seq<char>) -> bool {
    !is_attr_key(c, key) && key != c.text_key@
}

/// The attributes of an object: its string members whose key has the
/// prefix, with the prefix dropped, in order.
pub open spec fn object_attrs(c: XmlConfig, fields: Seq<(String, JsonValue)>) -> Seq<(Seq<char>, Seq<char>)>
    decreases fields.len(),
{
    if fields.len() == 0 {
        Seq::empty()
    } else {
        let rest = object_attrs(c, fields.drop_last());
        let k = fields.last().0@;
        match fields.last().1 {
            JsonValue::Str(s) => if is_attr_key(c, k) {
                rest.push((k.subrange(c.attr_prefix@.len() as int, k.len() as int), s@))
            } else {
                rest
            },
            _ => rest,
        }
    }
}

/// The text of an object: its last string member under the text key.
pub open spec fn object_text(c: XmlConfig, fields: Seq<(String, JsonValue)>) -> Option<Seq<char>>
    decreases fields.len(),
{
    if fields.len() == 0 {
        None
    } else {
        let k = fields.last().0@;
        match fields.last().1 {
            JsonValue::Str(s) => if !is_attr_key(c, k) && k == c.text_key@ {
                Some(s@)
            } else {
                object_text(c, fields.drop_last())
            },
            _ => object_text(c, fields.drop_last()),
        }
    }
}

/// Whether an object has a member that becomes a child element.
pub open spec fn has_children(c: XmlConfig, fields: Seq<(String, JsonValue)>) -> bool {
    exists|i: int| 0 <= i < fields.len() && is_child_key(c, #[trigger] fields[i].0@)
}

/// An element with text content.
pub open spec fn simple_element(c: XmlConfig, name: Seq<char>, content: Seq<char>, depth: nat) -> Seq<char> {
    pad(c, depth) + "<"@ + name + ">"@ + escape_text(content) + "</"@ + name + ">"@ + newline(c)
}

/// What is written for a value as element `name` at a depth of nesting:
/// `null` an empty element, a scalar an element with its text, an array one
/// element per item, an object an element with its attributes and either its
/// text or its child elements (an empty element with neither).
pub open spec fn xml_value(c: XmlConfig, name: Seq<char>, v: JsonValue, depth: nat) -> Seq<char>
    decreases v,
{
    match v {
        JsonValue::Null => pad(c, depth) + "<"@ + name + "/>"@ + newline(c),
        JsonValue::Bool(b) => simple_element(c, name, if b { "true"@ } else { "false"@ }, depth),
        JsonValue::Number(n) => simple_element(c, name, n@, depth),
        JsonValue::Str(s) => simple_element(c, name, s@, depth),
        JsonValue::Array(items) => xml_items(c, name, items@, depth),
        JsonValue::Object(fields) => {
            let tag = "<"@ + name + attrs_text(object_attrs(c, fields@));
            pad(c, depth) + (if !has_children(c, fields@) && object_text(c, fields@) is None {
                tag + "/>"@
            } else {
                tag + ">"@ + match object_text(c, fields@) {
                    Some(t) => escape_text(t),
                    None => newline(c) + xml_fields(c, fields@, depth + 1) + pad(c, depth),
                } + "</"@ + name + ">"@
            }) + newline(c)
        },
    }
}

/// The items of an array, each as element `name`.
pub open spec fn xml_items(c: XmlConfig, name: Seq<char>, items: Seq<JsonValue>, depth: nat) -> Seq<char>
    decreases items,
{
    if items.len() == 0 {
        Seq::empty()
    } else {
        xml_items(c, name, items.subrange(0, items.len() - 1), depth) + xml_value(c, name, items[items.len() - 1], depth)
    }
}

/// The child elements of an object's members.
pub open spec fn xml_fields(c: XmlConfig, fields: Seq<(String, JsonValue)>, depth: nat) -> Seq<char>
    decreases fields,
{
    if fields.len() == 0 {
        Seq::empty()
    } else {
        let last = fields[fields.len() - 1];
        xml_fields(c, fields.subrange(0, fields.len() - 1), depth)
            + if is_child_key(c, last.0@) { xml_value(c, last.0@, last.1, depth) } else { Seq::empty() }
    }
}

/// The document for a value: the declaration (and a line break, when
/// indenting), then the root element.
pub open spec fn xml_document(c: XmlConfig, v: JsonValue) -> Seq<char> {
    (if c.declaration {
        "<?xml version=\""@ + c.version@ + "\" encoding=\""@ + c.encoding@ + "\"?>"@ + newline(c)
    } else {
        Seq::empty()
    }) + xml_value(c, c.root_name@, v, 0)
}

// ============================================================================
// Serializer
// ============================================================================

/// Encoding a concatenation encodes each part.
pub proof fn lemma_encode_concat(a: Seq<char>, b: Seq<char>)
    ensures
        vstd::utf8::encode_utf8(a + b) == vstd::utf8::encode_utf8(a) + vstd::utf8::encode_utf8(b),
    decreases a.len(),
{
    if a.len() > 0 {
        assert((a + b).drop_first() =~= a.drop_first() + b);
        lemma_encode_concat(a.drop_first(), b);
        assert((a + b)[0] == a[0]);
    } else {
        assert(a + b =~= b);
    }
}

/// Writing more text extends what was written by its encoding.
proof fn lemma_written_step(before: Seq<u8>, start: Seq<u8>, acc: Seq<char>, piece: Seq<char>, after: Seq<u8>)
    requires
        before == start + vstd::utf8::encode_utf8(acc),
        after == before + vstd::utf8::encode_utf8(piece),
    ensures
        after == start + vstd::utf8::encode_utf8(acc + piece),
{
    lemma_encode_concat(acc, piece);
    assert(after =~= start + vstd::utf8::encode_utf8(acc + piece));
}

/// Spaces are not escaped.
proof fn lemma_escape_spaces(n: nat)
    ensures
        escape_text(spaces(n)) == spaces(n),
    decreases n,
{
    if n > 0 {
        assert(spaces(n).drop_first() =~= spaces((n - 1) as nat));
        lemma_escape_spaces((n - 1) as nat);
        assert(spaces(n) =~= seq![' '] + spaces((n - 1) as nat));
    } else {
        assert(spaces(n) =~= Seq::<char>::empty());
    }
}

/// A line feed is not escaped.
proof fn lemma_escape_newline()
    ensures
        escape_text("\n"@) == "\n"@,
{
    reveal_strlit("\n");
    assert("\n"@.drop_first() =~= Seq::<char>::empty());
    assert(escape_text("\n"@) =~= seq!['\n'] + escape_text(Seq::<char>::empty()));
}

/// XML serializer.
pub struct XmlSerializer {
    pub config: XmlConfig,
}

/// Map a writer error.
fn write_error(e: String) -> (res: XmlError)
    ensures
        res == XmlError::Write(e),
{
    XmlError::Write(e)
}

impl XmlSerializer {
    /// A serializer with the default configuration.
    pub fn new() -> (res: Self)
        ensures
            res.config.declaration,
            res.config.root_name@ == "root"@,
            res.config.indent == Some(2usize),
    {
        XmlSerializer { config: XmlConfig::new() }
    }

    /// A serializer with a configuration.
    pub fn with_config(config: XmlConfig) -> (res: Self)
        ensures
            res.config == config,
    {
        XmlSerializer { config }
    }

    /// The indentation one level deeper than `indent`.
    fn deeper(&self, indent: &String, Ghost(depth): Ghost<nat>) -> (res: String)
        requires
            indent@ == pad(self.config, depth),
        ensures
            res@ == pad(self.config, depth + 1),
    {
        let mut out = indent.clone();
        match self.config.indent {
            Some(n) => {
                let mut j: usize = 0;
                while j < n
                    invariant
                        j <= n,
                        self.config.indent == Some(n),
                        out@ == spaces((depth * n + j) as nat),
                    decreases n - j,
                {
                    let ghost before = out@;
                    crate::text::push_char(&mut out, ' ');
                    assert(out@ =~= spaces((depth * n + j + 1) as nat));
                    j = j + 1;
                }
                assert((depth + 1) * n == depth * n + n) by (nonlinear_arith);
            },
            None => {},
        }
        out
    }

    /// Write indentation.
    fn write_pad(&self, w: &mut quick_xml::Writer<Vec<u8>>, indent: &String, Ghost(depth): Ghost<nat>) -> (res: Result<(), XmlError>)
        requires
            indent@ == pad(self.config, depth),
        ensures
            res is Ok,
            res is Ok ==> xml_written(*final(w)) == xml_written(*old(w)) + vstd::utf8::encode_utf8(pad(self.config, depth)),
    {
        match self.config.indent {
            Some(n) => {
                proof {
                    lemma_escape_spaces((depth * n) as nat);
                }
                match write_text(w, indent.as_str()) {
                    Ok(()) => Ok(()),
                    Err(e) => Err(write_error(e)),
                }
            },
            None => {
                assert(vstd::utf8::encode_utf8(Seq::<char>::empty()) =~= Seq::<u8>::empty());
                assert(xml_written(*w) =~= xml_written(*w) + Seq::<u8>::empty());
                Ok(())
            },
        }
    }

    /// Write a line break, when indenting.
    fn write_newline(&self, w: &mut quick_xml::Writer<Vec<u8>>) -> (res: Result<(), XmlError>)
        ensures
            res is Ok,
            res is Ok ==> xml_written(*final(w)) == xml_written(*old(w)) + vstd::utf8::encode_utf8(newline(self.config)),
    {
        if self.config.indent.is_some() {
            proof {
                lemma_escape_newline();
            }
            match write_text(w, "\n") {
                Ok(()) => Ok(()),
                Err(e) => Err(write_error(e)),
            }
        } else {
            assert(vstd::utf8::encode_utf8(Seq::<char>::empty()) =~= Seq::<u8>::empty());
            assert(xml_written(*w) =~= xml_written(*w) + Seq::<u8>::empty());
            Ok(())
        }
    }

    /// Write an element with text content.
    fn write_simple(&self, w: &mut quick_xml::Writer<Vec<u8>>, name: &str, content: &str, indent: &String, Ghost(depth): Ghost<nat>) -> (res: Result<(), XmlError>)
        requires
            indent@ == pad(self.config, depth),
        ensures
            res is Ok,
            res is Ok ==> xml_written(*final(w)) == xml_written(*old(w)) + vstd::utf8::encode_utf8(
                simple_element(self.config, name@, content@, depth)),
    {
        let ghost start = xml_written(*w);
        let none: Vec<(String, String)> = Vec::new();
        assert(pair_views(none@) =~= Seq::<(Seq<char>, Seq<char>)>::empty());
        assert(start == start + vstd::utf8::encode_utf8(Seq::<char>::empty()));
        match self.write_pad(w, indent, Ghost(depth)) {
            Ok(()) => {},
            Err(e) => return Err(e),
        }
        proof {
            assert(Seq::<char>::empty() + pad(self.config, depth) =~= pad(self.config, depth));
        }
        let ghost acc1 = pad(self.config, depth);
        let ghost w1 = xml_written(*w);
        assert(w1 == start + vstd::utf8::encode_utf8(acc1));
        match write_tag(w, name, &none, false) {
            Ok(()) => {},
            Err(e) => return Err(write_error(e)),
        }
        let ghost acc2 = acc1 + ("<"@ + name@ + attrs_text(pair_views(none@)) + ">"@);
        proof {
            lemma_written_step(w1, start, acc1, "<"@ + name@ + attrs_text(pair_views(none@)) + ">"@, xml_written(*w));
        }
        let ghost w2 = xml_written(*w);
        match write_text(w, content) {
            Ok(()) => {},
            Err(e) => return Err(write_error(e)),
        }
        let ghost acc3 = acc2 + escape_text(content@);
        proof {
            lemma_written_step(w2, start, acc2, escape_text(content@), xml_written(*w));
        }
        let ghost w3 = xml_written(*w);
        match write_end(w, name) {
            Ok(()) => {},
            Err(e) => return Err(write_error(e)),
        }
        let ghost acc4 = acc3 + ("</"@ + name@ + ">"@);
        proof {
            lemma_written_step(w3, start, acc3, "</"@ + name@ + ">"@, xml_written(*w));
        }
        let ghost w4 = xml_written(*w);
        match self.write_newline(w) {
            Ok(()) => {},
            Err(e) => return Err(e),
        }
        proof {
            lemma_written_step(w4, start, acc4, newline(self.config), xml_written(*w));
            assert(acc4 + newline(self.config) =~= simple_element(self.config, name@, content@, depth));
        }
        Ok(())
    }
}

impl XmlSerializer {
    /// Whether a member key makes a child element.
    fn child_key(&self, key: &str) -> (res: bool)
        ensures
            res == is_child_key(self.config, key@),
    {
        !str_starts_with(key, self.config.attr_prefix.as_str()) && !str_eq(key, self.config.text_key.as_str())
    }

    /// The attributes of an object's members.
    fn collect_attrs(&self, fields: &Vec<(String, JsonValue)>) -> (res: Vec<(String, String)>)
        ensures
            pair_views(res@) == object_attrs(self.config, fields@),
    {
        let mut out: Vec<(String, String)> = Vec::new();
        let mut i: usize = 0;
        assert(pair_views(out@) =~= object_attrs(self.config, fields@.subrange(0, 0)));
        while i < fields.len()
            invariant
                i <= fields@.len(),
                pair_views(out@) == object_attrs(self.config, fields@.subrange(0, i as int)),
            decreases fields.len() - i,
        {
            assert(fields@.subrange(0, i as int + 1).drop_last() =~= fields@.subrange(0, i as int));
            let key = fields[i].0.as_str();
            match &fields[i].1 {
                JsonValue::Str(v) => {
                    if str_starts_with(key, self.config.attr_prefix.as_str()) {
                        let kv = chars_of(key);
                        let plen = self.config.attr_prefix.as_str().unicode_len();
                        let name = string_of_range(&kv, plen, kv.len());
                        let ghost before = out@;
                        out.push((name, v.clone()));
                        assert(pair_views(out@) =~= pair_views(before).push((name@, v@)));
                    }
                },
                _ => {},
            }
            i = i + 1;
        }
        assert(fields@.subrange(0, fields@.len() as int) =~= fields@);
        out
    }

    /// The text of an object's members.
    fn find_text<'a>(&self, fields: &'a Vec<(String, JsonValue)>) -> (res: Option<&'a String>)
        ensures
            match object_text(self.config, fields@) {
                Some(t) => res matches Some(r) && r@ == t,
                None => res is None,
            },
    {
        let mut found: Option<&String> = None;
        let mut i: usize = 0;
        assert(fields@.subrange(0, 0) =~= Seq::<(String, JsonValue)>::empty());
        while i < fields.len()
            invariant
                i <= fields@.len(),
                match object_text(self.config, fields@.subrange(0, i as int)) {
                    Some(t) => found matches Some(r) && r@ == t,
                    None => found is None,
                },
            decreases fields.len() - i,
        {
            assert(fields@.subrange(0, i as int + 1).drop_last() =~= fields@.subrange(0, i as int));
            let key = fields[i].0.as_str();
            match &fields[i].1 {
                JsonValue::Str(v) => {
                    if !str_starts_with(key, self.config.attr_prefix.as_str()) && str_eq(key, self.config.text_key.as_str()) {
                        found = Some(v);
                    }
                },
                _ => {},
            }
            i = i + 1;
        }
        assert(fields@.subrange(0, fields@.len() as int) =~= fields@);
        found
    }

    /// Whether an object has a member that makes a child element.
    fn any_child(&self, fields: &Vec<(String, JsonValue)>) -> (res: bool)
        ensures
            res == has_children(self.config, fields@),
    {
        let mut i: usize = 0;
        while i < fields.len()
            invariant
                i <= fields@.len(),
                forall|j: int| 0 <= j < i ==> !is_child_key(self.config, #[trigger] fields@[j].0@),
            decreases fields.len() - i,
        {
            if self.child_key(fields[i].0.as_str()) {
                return true;
            }
            i = i + 1;
        }
        false
    }

    /// Write a value as element `name` at a depth of nesting.
    fn write_value(&self, w: &mut quick_xml::Writer<Vec<u8>>, name: &str, value: &JsonValue, indent: &String, Ghost(depth): Ghost<nat>) -> (res: Result<(), XmlError>)
        requires
            indent@ == pad(self.config, depth),
        ensures
            res is Ok,
            res is Ok ==> xml_written(*final(w)) == xml_written(*old(w)) + vstd::utf8::encode_utf8(
                xml_value(self.config, name@, *value, depth)),
        decreases value, 1int,
    {
        let ghost start = xml_written(*w);
        match value {
            JsonValue::Null => {
                let none: Vec<(String, String)> = Vec::new();
                assert(pair_views(none@) =~= Seq::<(Seq<char>, Seq<char>)>::empty());
                match self.write_pad(w, indent, Ghost(depth)) {
                    Ok(()) => {},
                    Err(e) => return Err(e),
                }
                let ghost w1 = xml_written(*w);
                match write_tag(w, name, &none, true) {
                    Ok(()) => {},
                    Err(e) => return Err(write_error(e)),
                }
                let ghost acc = pad(self.config, depth);
                proof {
                    assert(w1 == start + vstd::utf8::encode_utf8(acc));
                    lemma_written_step(w1, start, acc, "<"@ + name@ + attrs_text(pair_views(none@)) + "/>"@, xml_written(*w));
                }
                let ghost acc2 = acc + ("<"@ + name@ + attrs_text(pair_views(none@)) + "/>"@);
                let ghost w2 = xml_written(*w);
                match self.write_newline(w) {
                    Ok(()) => {},
                    Err(e) => return Err(e),
                }
                proof {
                    lemma_written_step(w2, start, acc2, newline(self.config), xml_written(*w));
                    assert(acc2 + newline(self.config) =~= xml_value(self.config, name@, *value, depth));
                }
                Ok(())
            },
            JsonValue::Bool(b) => {
                let text = if *b { "true" } else { "false" };
                self.write_simple(w, name, text, indent, Ghost(depth))
            },
            JsonValue::Number(n) => self.write_simple(w, name, n.as_str(), indent, Ghost(depth)),
            JsonValue::Str(s) => self.write_simple(w, name, s.as_str(), indent, Ghost(depth)),
            JsonValue::Array(items) => {
                let mut i: usize = 0;
                assert(items@.subrange(0, 0) =~= Seq::<JsonValue>::empty());
                assert(start =~= start + vstd::utf8::encode_utf8(Seq::<char>::empty()));
                while i < items.len()
                    invariant
                        *value == JsonValue::Array(*items),
                        indent@ == pad(self.config, depth),
                        i <= items@.len(),
                        xml_written(*w) == start + vstd::utf8::encode_utf8(xml_items(self.config, name@, items@.subrange(0, i as int), depth)),
                    decreases items.len() - i,
                {
                    proof {
                        assert((*value)->Array_0 == *items);
                        assert(decreases_to!(*value => (*value)->Array_0));
                        assert(decreases_to!(*items => items@));
                        assert(decreases_to!(items@ => items@[i as int]));
                    }
                    let ghost before = xml_written(*w);
                    let ghost acc = xml_items(self.config, name@, items@.subrange(0, i as int), depth);
                    match self.write_value(w, name, &items[i], indent, Ghost(depth)) {
                        Ok(()) => {},
                        Err(e) => return Err(e),
                    }
                    proof {
                        let next = items@.subrange(0, i as int + 1);
                        assert(next.subrange(0, next.len() - 1) =~= items@.subrange(0, i as int));
                        assert(next[next.len() - 1] == items@[i as int]);
                        lemma_written_step(before, start, acc, xml_value(self.config, name@, items@[i as int], depth), xml_written(*w));
                    }
                    i = i + 1;
                }
                assert(items@.subrange(0, items@.len() as int) =~= items@);
                Ok(())
            },
            JsonValue::Object(fields) => self.write_object(w, name, value, fields, indent, Ghost(depth)),
        }
    }
}

impl XmlSerializer {
    /// Write an object as element `name`.
    fn write_object(
        &self,
        w: &mut quick_xml::Writer<Vec<u8>>,
        name: &str,
        value: &JsonValue,
        fields: &Vec<(String, JsonValue)>,
        indent: &String,
        Ghost(depth): Ghost<nat>,
    ) -> (res: Result<(), XmlError>)
        requires
            *value == JsonValue::Object(*fields),
            indent@ == pad(self.config, depth),
        ensures
            res is Ok,
            res is Ok ==> xml_written(*final(w)) == xml_written(*old(w)) + vstd::utf8::encode_utf8(
                xml_value(self.config, name@, *value, depth)),
        decreases value, 0int,
    {
        let ghost c = self.config;
        let ghost start = xml_written(*w);
        let attrs = self.collect_attrs(fields);
        let text = self.find_text(fields);
        let children = self.any_child(fields);
        let ghost tag = "<"@ + name@ + attrs_text(object_attrs(c, fields@));
        assert(start =~= start + vstd::utf8::encode_utf8(Seq::<char>::empty()));
        match self.write_pad(w, indent, Ghost(depth)) {
            Ok(()) => {},
            Err(e) => return Err(e),
        }
        let ghost acc1 = pad(c, depth);
        assert(Seq::<char>::empty() + acc1 =~= acc1);
        let ghost w1 = xml_written(*w);
        assert(w1 == start + vstd::utf8::encode_utf8(acc1));
        let ghost mut acc: Seq<char>;
        if !children && text.is_none() {
            match write_tag(w, name, &attrs, true) {
                Ok(()) => {},
                Err(e) => return Err(write_error(e)),
            }
            proof {
                lemma_written_step(w1, start, acc1, tag + "/>"@, xml_written(*w));
                acc = acc1 + (tag + "/>"@);
            }
        } else {
            match write_tag(w, name, &attrs, false) {
                Ok(()) => {},
                Err(e) => return Err(write_error(e)),
            }
            proof {
                lemma_written_step(w1, start, acc1, tag + ">"@, xml_written(*w));
            }
            let ghost acc2 = acc1 + (tag + ">"@);
            let ghost w2 = xml_written(*w);
            let ghost middle: Seq<char>;
            match text {
                Some(t) => {
                    match write_text(w, t.as_str()) {
                        Ok(()) => {},
                        Err(e) => return Err(write_error(e)),
                    }
                    proof {
                        lemma_written_step(w2, start, acc2, escape_text(t@), xml_written(*w));
                        middle = escape_text(t@);
                    }
                },
                None => {
                    match self.write_newline(w) {
                        Ok(()) => {},
                        Err(e) => return Err(e),
                    }
                    proof {
                        lemma_written_step(w2, start, acc2, newline(c), xml_written(*w));
                    }
                    let ghost acc3 = acc2 + newline(c);
                    let child_indent = self.deeper(indent, Ghost(depth));
                    let mut i: usize = 0;
                    assert(fields@.subrange(0, 0) =~= Seq::<(String, JsonValue)>::empty());
                    assert(acc3 + Seq::<char>::empty() =~= acc3);
                    while i < fields.len()
                        invariant
                            *value == JsonValue::Object(*fields),
                            c == self.config,
                            child_indent@ == pad(c, depth + 1),
                            i <= fields@.len(),
                            xml_written(*w) == start + vstd::utf8::encode_utf8(acc3 + xml_fields(c, fields@.subrange(0, i as int), depth + 1)),
                        decreases fields.len() - i,
                    {
                        let ghost before = xml_written(*w);
                        let ghost accf = acc3 + xml_fields(c, fields@.subrange(0, i as int), depth + 1);
                        let ghost next = fields@.subrange(0, i as int + 1);
                        proof {
                            assert(next.subrange(0, next.len() - 1) =~= fields@.subrange(0, i as int));
                            assert(next[next.len() - 1] == fields@[i as int]);
                        }
                        if self.child_key(fields[i].0.as_str()) {
                            proof {
                                assert((*value)->Object_0 == *fields);
                                assert(decreases_to!(*value => (*value)->Object_0));
                                assert(decreases_to!(*fields => fields@));
                                assert(decreases_to!(fields@ => fields@[i as int]));
                                assert(decreases_to!(fields@[i as int] => fields@[i as int].1));
                            }
                            match self.write_value(w, fields[i].0.as_str(), &fields[i].1, &child_indent, Ghost(depth + 1)) {
                                Ok(()) => {},
                                Err(e) => return Err(e),
                            }
                            proof {
                                lemma_written_step(before, start, accf, xml_value(c, fields@[i as int].0@, fields@[i as int].1, depth + 1), xml_written(*w));
                                assert(accf + xml_value(c, fields@[i as int].0@, fields@[i as int].1, depth + 1)
                                    =~= acc3 + xml_fields(c, next, depth + 1));
                            }
                        } else {
                            assert(accf =~= acc3 + xml_fields(c, next, depth + 1));
                        }
                        i = i + 1;
                    }
                    assert(fields@.subrange(0, fields@.len() as int) =~= fields@);
                    let ghost w4 = xml_written(*w);
                    match self.write_pad(w, indent, Ghost(depth)) {
                        Ok(()) => {},
                        Err(e) => return Err(e),
                    }
                    proof {
                        lemma_written_step(w4, start, acc3 + xml_fields(c, fields@, depth + 1), pad(c, depth), xml_written(*w));
                        middle = newline(c) + xml_fields(c, fields@, depth + 1) + pad(c, depth);
                        assert(acc3 + xml_fields(c, fields@, depth + 1) + pad(c, depth) =~= acc2 + middle);
                    }
                },
            }
            let ghost w5 = xml_written(*w);
            match write_end(w, name) {
                Ok(()) => {},
                Err(e) => return Err(write_error(e)),
            }
            proof {
                lemma_written_step(w5, start, acc2 + middle, "</"@ + name@ + ">"@, xml_written(*w));
                acc = acc2 + middle + ("</"@ + name@ + ">"@);
                assert(acc =~= acc1 + (tag + ">"@ + middle + "</"@ + name@ + ">"@));
            }
        }
        let ghost w6 = xml_written(*w);
        match self.write_newline(w) {
            Ok(()) => {},
            Err(e) => return Err(e),
        }
        proof {
            lemma_written_step(w6, start, acc, newline(c), xml_written(*w));
            assert(acc + newline(c) =~= xml_value(c, name@, *value, depth));
        }
        Ok(())
    }

    /// Serialize a value as an XML document.
    pub fn serialize_json(&self, value: &JsonValue) -> (res: Result<String, XmlError>)
        ensures
            res matches Ok(s) ==> s@ == xml_document(self.config, *value),
            res is Ok,
    {
        let mut w = xml_writer();
        let ghost start = xml_written(w);
        assert(start =~= Seq::<u8>::empty());
        let ghost acc: Seq<char>;
        if self.config.declaration {
            match write_decl(&mut w, self.config.version.as_str(), self.config.encoding.as_str()) {
                Ok(()) => {},
                Err(e) => return Err(write_error(e)),
            }
            let ghost d = "<?xml version=\""@ + self.config.version@ + "\" encoding=\""@ + self.config.encoding@ + "\"?>"@;
            let ghost w1 = xml_written(w);
            assert(w1 =~= start + vstd::utf8::encode_utf8(Seq::<char>::empty() + d));
            match self.write_newline(&mut w) {
                Ok(()) => {},
                Err(e) => return Err(e),
            }
            proof {
                lemma_written_step(w1, start, Seq::<char>::empty() + d, newline(self.config), xml_written(w));
                acc = Seq::<char>::empty() + d + newline(self.config);
            }
        } else {
            proof {
                acc = Seq::<char>::empty();
                assert(xml_written(w) =~= start + vstd::utf8::encode_utf8(acc));
            }
        }
        let indent = String::new();
        proof {
            assert(pad(self.config, 0) =~= Seq::<char>::empty());
        }
        let ghost w2 = xml_written(w);
        match self.write_value(&mut w, self.config.root_name.as_str(), value, &indent, Ghost(0)) {
            Ok(()) => {},
            Err(e) => return Err(e),
        }
        proof {
            lemma_written_step(w2, start, acc, xml_value(self.config, self.config.root_name@, *value, 0), xml_written(w));
            assert(acc + xml_value(self.config, self.config.root_name@, *value, 0) =~= xml_document(self.config, *value));
            vstd::utf8::encode_utf8_decode_utf8(xml_document(self.config, *value));
            vstd::utf8::encode_utf8_valid_utf8(xml_document(self.config, *value));
        }
        let bytes = xml_bytes(w);
        match crate::text::string_from_utf8(bytes) {
            Some(s) => Ok(s),
            None => Err(XmlError::Encoding(String::new())),
        }
    }
}

/// An XML response body with its status.
pub struct XmlResponse {
    pub content: String,
    pub status: u16,
}

impl XmlResponse {
    /// A 200 response.
    pub fn new(content: String) -> (res: Self)
        ensures
            res.content == content,
            res.status == 200,
    {
        XmlResponse { content, status: 200 }
    }

    /// Set the status.
    pub fn status(self, status: u16) -> (res: Self)
        ensures
            res.content == self.content,
            res.status == status,
    {
        XmlResponse { content: self.content, status }
    }

    /// The content type of XML responses.
    pub fn content_type() -> (res: &'static str)
        ensures
            res@ == "application/xml; charset=utf-8"@,
    {
        "application/xml; charset=utf-8"
    }
}

} // verus!
