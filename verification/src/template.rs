//! Template rendering by variable substitution: `{{ name }}` and `{{name}}`
//! are replaced by the context's values.
use vstd::prelude::*;
use crate::strmap::StrMap;
use crate::text::{owned, replace_all, replace_str};

verus! {

/// Template configuration.
pub struct TemplateConfig {
    pub template_dir: String,
    /// Read templates anew on every render (else keep them once read).
    pub auto_reload: bool,
    pub content_type: String,
    /// Extension added to template names that lack it.
    pub extension: String,
}

impl TemplateConfig {
    /// Directory `templates`, reloading, HTML in UTF-8, `.html` templates.
    pub fn new() -> (res: Self)
        ensures
            res.template_dir@ == "templates"@,
            res.auto_reload,
            res.content_type@ == "text/html; charset=utf-8"@,
            res.extension@ == ".html"@,
    {
        TemplateConfig {
            template_dir: String::from_str("templates"),
            auto_reload: true,
            content_type: String::from_str("text/html; charset=utf-8"),
            extension: String::from_str(".html"),
        }
    }
}

/// A value in a template context.
pub enum TemplateValue {
    Str(String),
    /// A number, by its text.
    Number(String),
    Bool(bool),
    Null,
    /// An array or object, by its JSON text.
    Json(String),
}

/// The text a value is rendered as.
pub open spec fn rendered(v: TemplateValue) -> Seq<char> {
    match v {
        TemplateValue::Str(s) => s@,
        TemplateValue::Number(n) => n@,
        TemplateValue::Bool(b) => if b { "true"@ } else { "false"@ },
        TemplateValue::Null => Seq::empty(),
        TemplateValue::Json(j) => j@,
    }
}

/// The text a value is rendered as.
fn render_value(v: &TemplateValue) -> (res: String)
    ensures
        res@ == rendered(*v),
{
    match v {
        TemplateValue::Str(s) => s.clone(),
        TemplateValue::Number(n) => n.clone(),
        TemplateValue::Bool(b) => if *b {
            String::from_str("true")
        } else {
            String::from_str("false")
        },
        TemplateValue::Null => String::new(),
        TemplateValue::Json(j) => j.clone(),
    }
}

/// Values by name, in the order they were first set.
pub struct TemplateContext {
    pub data: StrMap<TemplateValue>,
}

impl TemplateContext {
    pub open spec fn wf(&self) -> bool {
        self.data.wf()
    }

    /// An empty context.
    pub fn new() -> (res: Self)
        ensures
            res.wf(),
            res.data.seq().len() == 0,
    {
        TemplateContext { data: StrMap::new() }
    }

    /// Set a value.
    pub fn insert(&mut self, key: &str, value: TemplateValue)
        requires
            old(self).wf(),
        ensures
            final(self).wf(),
            final(self).data.to_map() == old(self).data.to_map().insert(key@, value),
    {
        self.data.insert(owned(key), value);
    }

    /// The value under `key`.
    pub fn get(&self, key: &str) -> (res: Option<&TemplateValue>)
        requires
            self.wf(),
        ensures
            res matches Some(v) ==> self.data.to_map().dom().contains(key@) && *v == self.data.to_map()[key@],
            res is None ==> !self.data.to_map().dom().contains(key@),
    {
        self.data.get(key)
    }
}

/// `{{ key }}`.
pub open spec fn spaced_pattern(key: Seq<char>) -> Seq<char> {
    "{{ "@ + key + " }}"@
}

/// `{{key}}`.
pub open spec fn tight_pattern(key: Seq<char>) -> Seq<char> {
    "{{"@ + key + "}}"@
}

/// The text after substituting each entry in turn for the pattern made of
/// its key (`{{ key }}` when `spaced`, else `{{key}}`).
pub open spec fn substitute(text: Seq<char>, entries: Seq<(String, TemplateValue)>, spaced: bool) -> Seq<char>
    decreases entries.len(),
{
    if entries.len() == 0 {
        text
    } else {
        let before = substitute(text, entries.drop_last(), spaced);
        let key = entries.last().0@;
        let pat = if spaced { spaced_pattern(key) } else { tight_pattern(key) };
        replace_all(before, pat, rendered(entries.last().1))
    }
}

/// A template rendered with a context: every `{{ key }}` replaced, entry by
/// entry, then every `{{key}}`.
pub open spec fn render(template: Seq<char>, entries: Seq<(String, TemplateValue)>) -> Seq<char> {
    substitute(substitute(template, entries, true), entries, false)
}

/// Templates read once, when not reloading.
pub struct TemplateEngine {
    pub config: TemplateConfig,
    pub cache: StrMap<String>,
}

impl TemplateEngine {
    pub open spec fn wf(&self) -> bool {
        self.cache.wf()
    }

    /// An engine with a configuration and nothing kept.
    pub fn new(config: TemplateConfig) -> (res: Self)
        ensures
            res.wf(),
            res.config == config,
            res.cache.seq().len() == 0,
    {
        TemplateEngine { config, cache: StrMap::new() }
    }

    /// An engine on a template directory, otherwise with the defaults.
    pub fn with_dir(template_dir: &str) -> (res: Self)
        ensures
            res.wf(),
            res.config.template_dir@ == template_dir@,
            res.config.auto_reload,
            res.config.extension@ == ".html"@,
            res.cache.seq().len() == 0,
    {
        let mut config = TemplateConfig::new();
        config.template_dir = owned(template_dir);
        TemplateEngine { config, cache: StrMap::new() }
    }

    /// The kept text of a template, when templates are kept.
    pub fn cached(&self, name: &str) -> (res: Option<String>)
        requires
            self.wf(),
        ensures
            self.config.auto_reload ==> res is None,
            !self.config.auto_reload ==> match res {
                Some(t) => self.cache.to_map().dom().contains(name@) && t@ == self.cache.to_map()[name@]@,
                None => !self.cache.to_map().dom().contains(name@),
            },
    {
        if self.config.auto_reload {
            return None;
        }
        match self.cache.get(name) {
            Some(t) => Some(t.clone()),
            None => None,
        }
    }

    /// Keep a template's text that was just read, when templates are kept.
    pub fn remember(&mut self, name: &str, content: &str)
        requires
            old(self).wf(),
        ensures
            final(self).wf(),
            final(self).config == old(self).config,
            old(self).config.auto_reload ==> final(self).cache == old(self).cache,
            !old(self).config.auto_reload ==> final(self).cache.to_map().map_values(|v: String| v@)
                == old(self).cache.to_map().map_values(|v: String| v@).insert(name@, content@),
    {
        if !self.config.auto_reload {
            self.cache.insert(owned(name), owned(content));
            assert(self.cache.to_map().map_values(|v: String| v@)
                =~= old(self).cache.to_map().map_values(|v: String| v@).insert(name@, content@));
        }
    }

    /// Whether a template name lacks the configured extension.
    pub fn needs_extension(&self, name: &str) -> (res: bool)
        ensures
            res == !crate::text::is_suffix(self.config.extension@, name@),
    {
        let n = crate::text::chars_of(name);
        let e = crate::text::chars_of(self.config.extension.as_str());
        !crate::text::ends_with(&n, &e)
    }

    /// Render a template text with a context.
    pub fn render_string(&self, template: &str, context: &TemplateContext) -> (res: Result<String, String>)
        ensures
            res matches Ok(r) && r@ == render(template@, context.data.seq()),
    {
        let es = &context.data.entries;
        let mut out = owned(template);
        let mut pass: usize = 0;
        while pass < 2
            invariant
                pass <= 2,
                pass == 0 ==> out@ == template@,
                pass == 1 ==> out@ == substitute(template@, es@, true),
                pass == 2 ==> out@ == render(template@, es@),
            decreases 2 - pass,
        {
            let spaced = pass == 0;
            let ghost start = out@;
            let mut i: usize = 0;
            assert(es@.subrange(0, 0) =~= Seq::<(String, TemplateValue)>::empty());
            while i < es.len()
                invariant
                    i <= es@.len(),
                    out@ == substitute(start, es@.subrange(0, i as int), spaced),
                decreases es.len() - i,
            {
                let mut pat = if spaced { String::from_str("{{ ") } else { String::from_str("{{") };
                pat.append(es[i].0.as_str());
                pat.append(if spaced { " }}" } else { "}}" });
                proof {
                    reveal_strlit("{{ ");
                    reveal_strlit("{{");
                }
                let rep = render_value(&es[i].1);
                let next = replace_str(out.as_str(), pat.as_str(), rep.as_str());
                assert(es@.subrange(0, i as int + 1).drop_last() =~= es@.subrange(0, i as int));
                out = next;
                i = i + 1;
            }
            assert(es@.subrange(0, es@.len() as int) =~= es@);
            pass = pass + 1;
        }
        Ok(out)
    }

    /// Forget every kept template.
    pub fn clear_cache(&mut self)
        ensures
            final(self).wf(),
            final(self).config == old(self).config,
            final(self).cache.seq().len() == 0,
    {
        self.cache.clear();
    }
}

} // verus!
