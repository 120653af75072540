use iced_webview::scan::{css_import_hrefs, extract_attr, extract_url_value, stylesheet_hrefs};

fn owned(items: &[&str]) -> Vec<String> {
    items.iter().map(|s| s.to_string()).collect()
}

#[test]
fn attr_in_double_quotes() {
    assert_eq!(
        extract_attr("<link rel=\"stylesheet\" href=\"a.css\">", "href"),
        Some("a.css".to_string())
    );
}

#[test]
fn attr_in_single_quotes() {
    assert_eq!(extract_attr("<link href='b.css'>", "href"), Some("b.css".to_string()));
}

#[test]
fn attr_without_quotes_ends_at_space_bracket_or_slash() {
    assert_eq!(extract_attr("<link href=a.css rel=x>", "href"), Some("a.css".to_string()));
    assert_eq!(extract_attr("<link href=a.css>", "href"), Some("a.css".to_string()));
    assert_eq!(extract_attr("<link href=a.css/>", "href"), Some("a.css".to_string()));
    assert_eq!(extract_attr("<link href=a.css", "href"), Some("a.css".to_string()));
    assert_eq!(extract_attr("<link href=a\u{00A0}b>", "href"), Some("a".to_string()));
}

#[test]
fn attr_value_may_be_empty() {
    assert_eq!(extract_attr("<link href=\"\">", "href"), Some(String::new()));
    assert_eq!(extract_attr("<link href=>", "href"), Some(String::new()));
    assert_eq!(extract_attr("<link href=", "href"), Some(String::new()));
}

#[test]
fn attr_missing_or_unclosed_is_absent() {
    assert_eq!(extract_attr("<link rel=\"stylesheet\">", "href"), None);
    assert_eq!(extract_attr("<link href=\"a.css>", "href"), None);
    assert_eq!(extract_attr("", "href"), None);
}

#[test]
fn attr_name_is_matched_against_the_lowered_tag() {
    assert_eq!(extract_attr("<LINK HREF=\"A.css\">", "href"), Some("A.css".to_string()));
    assert_eq!(extract_attr("<link href=\"a.css\">", "HREF"), None);
}

#[test]
fn attr_first_occurrence_wins() {
    assert_eq!(
        extract_attr("<link data-href=\"x\" href=\"y\">", "href"),
        Some("x".to_string())
    );
}

#[test]
fn attr_keeps_characters_outside_ascii() {
    assert_eq!(
        extract_attr("<link title=\"é\" href=\"ü.css\">", "href"),
        Some("ü.css".to_string())
    );
}

#[test]
fn url_value_quoted() {
    assert_eq!(extract_url_value("\"a.css\")"), Some("a.css".to_string()));
    assert_eq!(extract_url_value("  'b c.css' )"), Some("b c.css".to_string()));
}

#[test]
fn url_value_bare_is_trimmed() {
    assert_eq!(extract_url_value("c.css)"), Some("c.css".to_string()));
    assert_eq!(extract_url_value("  c.css  ) rest"), Some("c.css".to_string()));
    assert_eq!(extract_url_value(")"), Some(String::new()));
    assert_eq!(extract_url_value("   )"), Some(String::new()));
}

#[test]
fn url_value_unclosed_is_absent() {
    assert_eq!(extract_url_value("c.css"), None);
    assert_eq!(extract_url_value("\"c.css)"), None);
    assert_eq!(extract_url_value(""), None);
}

#[test]
fn imports_in_all_three_forms() {
    let css = "@import url(\"a.css\");\n@IMPORT 'b.css';\n@import   url( c.css );\nbody {}";
    assert_eq!(css_import_hrefs(css), owned(&["a.css", "b.css", "c.css"]));
}

#[test]
fn import_without_target_gives_nothing() {
    assert_eq!(css_import_hrefs("@import foo;"), Vec::<String>::new());
    assert_eq!(css_import_hrefs("body { color: red }"), Vec::<String>::new());
    assert_eq!(css_import_hrefs(""), Vec::<String>::new());
}

#[test]
fn import_at_the_very_end_is_passed_over() {
    assert_eq!(css_import_hrefs("@import"), Vec::<String>::new());
    assert_eq!(css_import_hrefs("a {} @import   "), Vec::<String>::new());
    assert_eq!(css_import_hrefs("@import é"), Vec::<String>::new());
}

#[test]
fn import_url_keyword_is_case_sensitive() {
    assert_eq!(css_import_hrefs("@import URL(a.css);"), Vec::<String>::new());
}

#[test]
fn import_scan_resumes_inside_the_rule() {
    assert_eq!(
        css_import_hrefs("@import \"@import 'x'\";"),
        owned(&["@import 'x'", "x"])
    );
}

#[test]
fn stylesheet_links_in_document_order() {
    let html = "<html><head>\
        <link rel=\"stylesheet\" href=\"one.css\">\
        <link rel=\"icon\" href=\"icon.png\">\
        <LINK REL=\"STYLESHEET\" HREF='two.css'/>\
        <link rel=stylesheet>\
        </head></html>";
    assert_eq!(stylesheet_hrefs(html), owned(&["one.css", "two.css"]));
}

#[test]
fn unclosed_link_ends_the_scan() {
    assert_eq!(
        stylesheet_hrefs("<link rel=stylesheet href=a.css><link rel=stylesheet href=b.css"),
        owned(&["a.css"])
    );
    assert_eq!(stylesheet_hrefs("<link"), Vec::<String>::new());
}

#[test]
fn markup_without_links_gives_nothing() {
    assert_eq!(stylesheet_hrefs("<p>stylesheet href=\"x\"</p>"), Vec::<String>::new());
}
