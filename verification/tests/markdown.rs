use peas::markdown::{detect_format, render_document, split_markdown, FrontmatterFormat};

#[test]
fn test_detect_format_yaml() {
    let content = "---\nid: test\n---";
    assert_eq!(detect_format(content), Some(FrontmatterFormat::Yaml));
}

#[test]
fn test_detect_format_toml() {
    let content = "+++\nid = \"test\"\n+++";
    assert_eq!(detect_format(content), Some(FrontmatterFormat::Toml));
}

#[test]
fn test_detect_format_none() {
    let content = "no frontmatter here";
    assert_eq!(detect_format(content), None);
}

#[test]
fn framing_round_trip_on_values() {
    for format in [FrontmatterFormat::Toml, FrontmatterFormat::Yaml] {
        let doc = render_document(format, "id = \"peas-1\"\ntitle = \"x\"\n", "Body text");
        let (f, framed) = split_markdown(&doc).unwrap();
        assert_eq!(f, format);
        assert_eq!(framed.frontmatter, "id = \"peas-1\"\ntitle = \"x\"");
        assert_eq!(framed.body, "Body text");
    }
}

#[test]
fn split_reports_missing_delimiters() {
    assert!(split_markdown("just text").is_err());
    let e = split_markdown("---\nid: a\nno closing").unwrap_err();
    assert_eq!(e.to_string(), "Parse error: Missing closing frontmatter delimiter");
}

#[test]
fn delimiters_by_format() {
    assert_eq!(FrontmatterFormat::Toml.delimiter(), "+++");
    assert_eq!(FrontmatterFormat::Yaml.delimiter(), "---");
}

#[test]
fn json_frontmatter_round_trip() {
    let fm = "{\n  \"id\": \"peas-1\",\n  \"tags\": {\n    \"a\": 1\n  }\n}";
    let doc = render_document(FrontmatterFormat::Json, fm, "Body text");
    assert_eq!(doc, format!("{}\n\nBody text\n", fm));
    assert_eq!(detect_format(&doc), Some(FrontmatterFormat::Json));
    let (f, framed) = split_markdown(&doc).unwrap();
    assert_eq!(f, FrontmatterFormat::Json);
    assert_eq!(framed.frontmatter, fm);
    assert_eq!(framed.body, "Body text");
    let doc = render_document(FrontmatterFormat::Json, fm, "");
    assert_eq!(doc, format!("{}\n", fm));
    let (_, framed) = split_markdown(&doc).unwrap();
    assert_eq!(framed.body, "");
    assert_eq!(
        split_markdown("{ \"a\": 1 }").unwrap_err().to_string(),
        "Parse error: Missing closing frontmatter brace"
    );
}
