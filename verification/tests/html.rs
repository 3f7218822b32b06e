use kagent::json::parse_json;
use kagent::tools::html::{
    build_frontmatter, extract_html_content, find_jsonld_author, find_jsonld_field, jsonld_scripts,
    normalize_date, normalize_scalar, parse_jsonld, split_categories, ExtractedMetadata, JsonValue,
};

fn parsed_jsonld(html: &str) -> Vec<JsonValue> {
    parse_jsonld(html)
}

#[test]
fn jsonld_blocks_that_parse_are_kept_in_order() {
    let html = r#"<html><head>
<script type="application/ld+json">{"a":1}</script>
<script type="application/ld+json">not json</script>
<script type="application/ld+json">["x"]</script>
</head><body></body></html>"#;
    assert_eq!(jsonld_scripts(html).len(), 3);
    let values = parse_jsonld(html);
    assert_eq!(values.len(), 2);
    assert!(matches!(&values[0], JsonValue::Object(es) if es.len() == 1 && es[0].0 == "a"));
    assert!(matches!(&values[1], JsonValue::Array(xs) if xs.len() == 1));
}

#[test]
fn extract_html_content_with_metadata() {
    let html = r#"
<!doctype html>
<html>
  <head>
    <title>Example Title</title>
    <meta name="description" content="Example description." />
    <meta property="og:site_name" content="Example Site" />
    <meta name="octolytics-dimension-user_login" content="ExampleAuthor" />
    <meta name="hovercard-subject-tag" content="issue:123" />
    <script type="application/ld+json">{"datePublished":"2025-02-23T18:26:02.000Z"}</script>
  </head>
  <body>
    <div class="comment-body"><p>Hello <code>world</code>.</p></div>
  </body>
</html>
"#;

    let jsonld = parsed_jsonld(html);
    let output = match extract_html_content(html, "https://example.com/issues/123", &jsonld) {
        Ok((text, _)) => text,
        Err(e) => panic!("{}", e),
    };
    let expected = r#"---
title: Example Title
author: ExampleAuthor
url: https://example.com/issues/123
hostname: example.com
description: Example description.
sitename: Example Site
date: 2025-02-23
categories: ['issue:123']
---
Hello `world`."#;
    assert_eq!(output, expected);
}

#[test]
fn extract_html_content_without_text_is_an_error() {
    let html = "<html><body>   </body></html>";
    match extract_html_content(html, "", &Vec::new()) {
        Err(err) => assert!(err.starts_with("Failed to extract meaningful content from the page.")),
        Ok(_) => panic!("expected no content"),
    }
}

#[test]
fn frontmatter_is_empty_without_metadata() {
    let meta = ExtractedMetadata {
        title: None,
        author: None,
        url: None,
        hostname: None,
        description: None,
        sitename: None,
        date: None,
        categories: Some(Vec::new()),
    };
    assert_eq!(build_frontmatter(&meta), "");
}

#[test]
fn frontmatter_quotes_categories_and_flattens_values() {
    let meta = ExtractedMetadata {
        title: Some("  A\n  multi-line\r\ttitle ".to_string()),
        author: None,
        url: None,
        hostname: None,
        description: None,
        sitename: None,
        date: None,
        categories: Some(vec!["it's".to_string(), "b".to_string()]),
    };
    assert_eq!(
        build_frontmatter(&meta),
        "---\ntitle: A multi-line title\ncategories: ['it''s', 'b']\n---"
    );
}

#[test]
fn scalars_dates_and_categories() {
    assert_eq!(normalize_scalar("  one\n two\r\n  three "), "one two three");
    assert_eq!(normalize_date("  2024-01-02T03:04:05Z "), Some("2024-01-02".to_string()));
    assert_eq!(normalize_date("2024"), Some("2024".to_string()));
    assert_eq!(normalize_date("   "), None);
    assert_eq!(split_categories(" a, ,b ,, c"), vec!["a", "b", "c"]);
}

#[test]
fn jsonld_lookups_search_depth_first() {
    let j = parse_json(r#"{"@graph":[{"author":{"name":"Ada"}},{"dateCreated":"2020-05-06"}],"headline":"x"}"#)
        .ok()
        .unwrap();
    assert_eq!(find_jsonld_field(&j, "dateCreated"), Some("2020-05-06".to_string()));
    assert_eq!(find_jsonld_field(&j, "datePublished"), None);
    assert_eq!(find_jsonld_author(&j), Some("Ada".to_string()));
    let plain = JsonValue::Object(vec![("author".to_string(), JsonValue::Str("Bob".to_string()))]);
    assert_eq!(find_jsonld_author(&plain), None);
}
