use iced_webview::escape::{error_document, html_escape};

#[test]
fn escapes_the_four_characters() {
    assert_eq!(html_escape("a&b<c>d\"e"), "a&amp;b&lt;c&gt;d&quot;e");
}

#[test]
fn leaves_plain_text_alone() {
    assert_eq!(html_escape("plain text 'single'"), "plain text 'single'");
    assert_eq!(html_escape(""), "");
}

#[test]
fn escapes_an_ampersand_only_once() {
    assert_eq!(html_escape("&lt;"), "&amp;lt;");
}

#[test]
fn failure_document_escapes_both_parts() {
    assert_eq!(
        error_document("https://x.test/?a=1&b=2", "bad <thing>"),
        "<html><body><h1>Failed to load</h1><p>https://x.test/?a=1&amp;b=2</p><p>bad &lt;thing&gt;</p></body></html>"
    );
}
