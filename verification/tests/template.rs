use cello::template::{TemplateConfig, TemplateContext, TemplateEngine, TemplateValue};

#[test]
fn test_template_context() {
    let mut ctx = TemplateContext::new();
    ctx.insert("name", TemplateValue::Str("John".to_string()));
    ctx.insert("age", TemplateValue::Number("30".to_string()));
    ctx.insert("active", TemplateValue::Bool(true));

    assert!(ctx.get("name").is_some());
    assert!(ctx.get("age").is_some());
}

#[test]
fn test_render_string() {
    let engine = TemplateEngine::new(TemplateConfig::new());
    let mut ctx = TemplateContext::new();
    ctx.insert("name", TemplateValue::Str("World".to_string()));
    ctx.insert("count", TemplateValue::Number("42".to_string()));

    let result = engine.render_string("Hello, {{ name }}! Count: {{ count }}", &ctx);
    assert!(result.is_ok());
    assert_eq!(result.unwrap(), "Hello, World! Count: 42");
}

#[test]
fn test_render_string_no_spaces() {
    let engine = TemplateEngine::new(TemplateConfig::new());
    let mut ctx = TemplateContext::new();
    ctx.insert("title", TemplateValue::Str("Test".to_string()));

    let result = engine.render_string("<h1>{{title}}</h1>", &ctx);
    assert!(result.is_ok());
    assert_eq!(result.unwrap(), "<h1>Test</h1>");
}

#[test]
fn value_kinds_and_unknown_names() {
    let engine = TemplateEngine::with_dir("views");
    let mut ctx = TemplateContext::new();
    ctx.insert("b", TemplateValue::Bool(false));
    ctx.insert("n", TemplateValue::Null);
    ctx.insert("j", TemplateValue::Json("[1,2]".to_string()));
    let out = engine.render_string("{{ b }}|{{n}}|{{ j }}|{{ missing }}|{{  b  }}", &ctx).unwrap();
    assert_eq!(out, "false||[1,2]|{{ missing }}|{{  b  }}");
}

#[test]
fn template_cache_when_not_reloading() {
    let mut config = TemplateConfig::new();
    config.auto_reload = false;
    let mut engine = TemplateEngine::new(config);
    assert_eq!(engine.cached("index"), None);
    engine.remember("index", "<p>hi</p>");
    assert_eq!(engine.cached("index"), Some("<p>hi</p>".to_string()));
    engine.clear_cache();
    assert_eq!(engine.cached("index"), None);
    assert!(engine.needs_extension("index"));
    assert!(!engine.needs_extension("index.html"));

    let mut reloading = TemplateEngine::with_dir("t");
    reloading.remember("a", "x");
    assert_eq!(reloading.cached("a"), None);
}
