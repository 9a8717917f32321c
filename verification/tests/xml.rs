use cello::http::JsonValue;
use cello::xml::{XmlConfig, XmlError, XmlResponse, XmlSerializer};

fn obj(fields: Vec<(&str, JsonValue)>) -> JsonValue {
    JsonValue::Object(fields.into_iter().map(|(k, v)| (k.to_string(), v)).collect())
}

fn s(v: &str) -> JsonValue {
    JsonValue::Str(v.to_string())
}

fn n(v: &str) -> JsonValue {
    JsonValue::Number(v.to_string())
}

#[test]
fn test_xml_serializer_simple() {
    let serializer = XmlSerializer::with_config(XmlConfig::new().root("item").no_indent());
    let json = obj(vec![("name", s("Test")), ("value", n("42"))]);
    let xml = serializer.serialize_json(&json).ok().unwrap();
    assert!(xml.contains("<item>"));
    assert!(xml.contains("<name>Test</name>"));
    assert!(xml.contains("<value>42</value>"));
    assert!(xml.contains("</item>"));
}

#[test]
fn test_xml_serializer_array() {
    let serializer = XmlSerializer::with_config(XmlConfig::new().root("items").no_indent());
    let json = obj(vec![("item", JsonValue::Array(vec![n("1"), n("2"), n("3")]))]);
    let xml = serializer.serialize_json(&json).ok().unwrap();
    assert!(xml.contains("<item>1</item>"));
    assert!(xml.contains("<item>2</item>"));
    assert!(xml.contains("<item>3</item>"));
}

#[test]
fn test_xml_serializer_attributes() {
    let serializer = XmlSerializer::with_config(XmlConfig::new().root("root").no_indent());
    let json = obj(vec![("item", obj(vec![("@id", s("123")), ("@type", s("test")), ("value", s("content"))]))]);
    let xml = serializer.serialize_json(&json).ok().unwrap();
    assert!(xml.contains("id=\"123\""));
    assert!(xml.contains("type=\"test\""));
}

#[test]
fn test_xml_config() {
    let config = XmlConfig::new().root("data").no_declaration().indent(4);
    assert_eq!(config.root_name, "data");
    assert!(!config.declaration);
    assert_eq!(config.indent, Some(4));
}

#[test]
fn test_xml_declaration() {
    let serializer = XmlSerializer::with_config(XmlConfig::new().root("test"));
    let xml = serializer.serialize_json(&obj(vec![])).ok().unwrap();
    assert!(xml.starts_with("<?xml"));
    assert!(xml.contains("version=\"1.0\""));
    assert!(xml.contains("encoding=\"UTF-8\""));
}

#[test]
fn whole_documents() {
    let flat = XmlSerializer::with_config(XmlConfig::new().no_declaration().no_indent());
    let v = obj(vec![
        ("@id", s("a<b")),
        ("#text", s("x & y")),
        ("ignored", s("z")),
    ]);
    assert_eq!(flat.serialize_json(&v).ok().unwrap(), "<root id=\"a&lt;b\">x &amp; y</root>");
    assert_eq!(flat.serialize_json(&JsonValue::Null).ok().unwrap(), "<root/>");
    assert_eq!(flat.serialize_json(&JsonValue::Bool(true)).ok().unwrap(), "<root>true</root>");

    let pretty = XmlSerializer::new();
    let doc = pretty
        .serialize_json(&obj(vec![("a", obj(vec![("b", s("1"))])), ("e", obj(vec![]))]))
        .ok()
        .unwrap();
    assert_eq!(
        doc,
        "<?xml version=\"1.0\" encoding=\"UTF-8\"?>\n<root>\n  <a>\n    <b>1</b>\n  </a>\n  <e/>\n</root>\n"
    );
}

#[test]
fn xml_errors_and_response() {
    assert_eq!(XmlError::Write("w".to_string()).to_string(), "XML write error: w");
    assert_eq!(XmlError::Encoding("e".to_string()).to_string(), "XML encoding error: e");
    let r = XmlResponse::new("<a/>".to_string()).status(201);
    assert_eq!(r.status, 201);
    assert_eq!(XmlResponse::content_type(), "application/xml; charset=utf-8");
}
