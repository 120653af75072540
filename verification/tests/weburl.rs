use iced_webview::weburl::{is_same_page, is_web_url, join, parse, resolve_url, PageUrl};

#[test]
fn parse_gives_the_components() {
    let u = parse("HTTPS://User@Example.COM:8443/a/b?x=1#frag").unwrap();
    assert_eq!(u.href, "https://User@example.com:8443/a/b?x=1#frag");
    assert_eq!(u.scheme, "https");
    assert_eq!(u.host, Some("example.com".to_string()));
    assert_eq!(u.port, Some(8443));
    assert_eq!(u.path, "/a/b");
    assert_eq!(u.query, Some("x=1".to_string()));
    assert_eq!(u.fragment, Some("frag".to_string()));
}

#[test]
fn parse_leaves_out_the_default_port() {
    let u = parse("https://example.com:443").unwrap();
    assert_eq!(u.port, None);
    assert_eq!(u.path, "/");
    assert_eq!(u.query, None);
    assert_eq!(u.fragment, None);
    assert_eq!(u.href, "https://example.com/");
}

#[test]
fn parse_refuses_a_relative_reference() {
    let e = parse("dir/page.html").unwrap_err();
    assert_eq!(e.message, "relative URL without a base");
    let e = parse("").unwrap_err();
    assert_eq!(e.message, "relative URL without a base");
}

#[test]
fn parse_reports_the_kind_of_fault() {
    assert_eq!(parse("https://").unwrap_err().message, "empty host");
    assert_eq!(parse("https://x.test:99999/").unwrap_err().message, "invalid port number");
}

#[test]
fn join_resolves_against_the_base() {
    let u = join("https://alice.com/a/b.html", "c.png").unwrap();
    assert_eq!(u.href, "https://alice.com/a/c.png");
    let u = join("https://alice.com/a", "//eve.com/b").unwrap();
    assert_eq!(u.href, "https://eve.com/b");
    let u = join("https://alice.com/a", "http://eve.com/b").unwrap();
    assert_eq!(u.href, "http://eve.com/b");
}

#[test]
fn join_fails_on_a_bad_base() {
    assert_eq!(join("nonsense", "c.png").unwrap_err().message, "relative URL without a base");
    assert_eq!(
        join("about:blank", "c.png").unwrap_err().message,
        "relative URL with a cannot-be-a-base base"
    );
}

#[test]
fn join_against_a_bad_base_gives_the_fault_of_the_base() {
    for reference in ["c.png", "https://x.test/abs", "", "#f"] {
        assert_eq!(
            join("https://", reference).unwrap_err().message,
            parse("https://").unwrap_err().message
        );
    }
}

#[test]
fn resolve_relative_stylesheet_against_its_page() {
    let u = resolve_url("./foo.css", "https://x.test/dir/page.html", "").unwrap();
    assert_eq!(u.href, "https://x.test/dir/foo.css");
}

#[test]
fn resolve_takes_an_absolute_source_as_it_is() {
    let u = resolve_url("https://cdn.test/i.png", "https://x.test/a/", "https://y.test/").unwrap();
    assert_eq!(u.href, "https://cdn.test/i.png");
}

#[test]
fn resolve_prefers_the_base_over_the_page() {
    let u = resolve_url("i.png", "https://x.test/css/site.css", "https://x.test/page.html").unwrap();
    assert_eq!(u.href, "https://x.test/css/i.png");
}

#[test]
fn resolve_falls_back_to_the_page() {
    let u = resolve_url("i.png", "", "https://x.test/dir/page.html").unwrap();
    assert_eq!(u.href, "https://x.test/dir/i.png");
    let u = resolve_url("i.png", "not a base", "https://x.test/dir/page.html").unwrap();
    assert_eq!(u.href, "https://x.test/dir/i.png");
}

#[test]
fn resolve_fails_with_the_error_of_the_last_attempt() {
    let e = resolve_url("i.png", "", "about:blank").unwrap_err();
    assert_eq!(e.message, "relative URL with a cannot-be-a-base base");
    let e = resolve_url("i.png", "also bad", "").unwrap_err();
    assert_eq!(e.message, "relative URL without a base");
}

#[test]
fn resolve_without_any_address_reports_the_fault_of_the_page() {
    let e = resolve_url("i.png", "", "https://").unwrap_err();
    assert_eq!(e.message, "empty host");
    assert_eq!(e.message, parse("https://").unwrap_err().message);
}

#[test]
fn only_http_and_https_are_web_addresses() {
    assert!(is_web_url(&parse("http://x.test/").unwrap()));
    assert!(is_web_url(&parse("https://x.test/").unwrap()));
    assert!(!is_web_url(&parse("data:text/plain,hi").unwrap()));
    assert!(!is_web_url(&parse("javascript:void(0)").unwrap()));
    assert!(!is_web_url(&parse("file:///etc/hosts").unwrap()));
    assert!(!is_web_url(&parse("httpss://x.test/").unwrap()));
}

#[test]
fn same_page_ignores_the_fragment() {
    let a = parse("https://x.test/p?q=1#one").unwrap();
    let b = parse("https://x.test/p?q=1#two").unwrap();
    let c = parse("https://x.test/p?q=1").unwrap();
    assert!(is_same_page(&a, &b));
    assert!(is_same_page(&a, &c));
    assert!(is_same_page(&a, &a));
}

#[test]
fn same_page_compares_every_other_component() {
    let a = parse("https://x.test/p?q=1").unwrap();
    assert!(!is_same_page(&a, &parse("http://x.test/p?q=1").unwrap()));
    assert!(!is_same_page(&a, &parse("https://y.test/p?q=1").unwrap()));
    assert!(!is_same_page(&a, &parse("https://x.test:8443/p?q=1").unwrap()));
    assert!(!is_same_page(&a, &parse("https://x.test/other?q=1").unwrap()));
    assert!(!is_same_page(&a, &parse("https://x.test/p?q=2").unwrap()));
    assert!(!is_same_page(&a, &parse("https://x.test/p").unwrap()));
}

#[test]
fn same_page_ignores_the_user() {
    let a = parse("https://x.test/p").unwrap();
    let b = parse("https://user@x.test/p").unwrap();
    assert!(is_same_page(&a, &b));
}

#[test]
fn same_page_works_on_values_written_by_hand() {
    let a = PageUrl {
        href: "https://x.test/p#a".to_string(),
        scheme: "https".to_string(),
        host: Some("x.test".to_string()),
        port: None,
        path: "/p".to_string(),
        query: None,
        fragment: Some("a".to_string()),
    };
    let b = a.duplicate();
    assert!(is_same_page(&a, &b));
    assert_eq!(b.href, "https://x.test/p#a");
    assert_eq!(b.fragment, Some("a".to_string()));
}
