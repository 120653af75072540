use iced_webview::cache::StylesheetCache;
use iced_webview::fetch::{
    admit_image, cap_links, document_for, extract_css_imports, extract_stylesheet_links,
    resolve_all, FetchEvent, FetchStep, Page, PageFetch,
};
use iced_webview::fetch_model::Phase;
use iced_webview::limits::{
    FetchError, Resource, MAX_CSS_SIZE, MAX_IMAGE_SIZE, MAX_PAGE_SIZE,
};
use iced_webview::weburl::parse;

/// What a scripted server answers for an address: the announced length and
/// the body, or nothing if the transfer fails.
type Server = Vec<(String, Option<u64>, Vec<u8>)>;

fn serve(server: &Server, url: &str) -> Option<(Option<u64>, Vec<u8>)> {
    server.iter().find(|(u, _, _)| u == url).map(|(_, n, b)| (*n, b.clone()))
}

/// Drives a fetch against a scripted server and returns the addresses that
/// were requested, the final step and the machine.
fn drive(address: &str, server: &Server) -> (Vec<String>, FetchStep, PageFetch) {
    let (mut fetch, mut step) = PageFetch::start(address.to_string());
    let mut requested = Vec::new();
    let mut body: Option<Vec<u8>> = None;
    let mut rounds = 0;
    loop {
        rounds += 1;
        assert!(rounds < 10_000, "the fetch does not end");
        match step {
            FetchStep::Get(url) => {
                requested.push(url.clone());
                match serve(server, &url) {
                    Some((announced, bytes)) => {
                        body = Some(bytes);
                        step = fetch.step(FetchEvent::Head(announced));
                    }
                    None => {
                        step = fetch.step(FetchEvent::Failed("connection refused".to_string()));
                    }
                }
            }
            FetchStep::ReadBody => {
                step = fetch.step(FetchEvent::Body(body.take().unwrap()));
            }
            done => return (requested, done, fetch),
        }
    }
}

fn page(body: &str) -> (String, Option<u64>, Vec<u8>) {
    ("https://x.test/dir/page.html".to_string(), None, body.as_bytes().to_vec())
}

fn sheet(url: &str, body: &str) -> (String, Option<u64>, Vec<u8>) {
    (url.to_string(), Some(body.len() as u64), body.as_bytes().to_vec())
}

#[test]
fn page_without_stylesheets() {
    let html = "<html><body>hello</body></html>";
    let (requested, step, fetch) = drive("https://x.test/dir/page.html", &vec![page(html)]);
    assert!(matches!(step, FetchStep::Finished));
    assert_eq!(requested, vec!["https://x.test/dir/page.html".to_string()]);
    assert_eq!(fetch.phase(), Phase::Finished);
    let page = fetch.into_page().unwrap();
    assert_eq!(page.html, html);
    assert_eq!(page.styles.len(), 0);
}

#[test]
fn page_text_is_returned_unmodified() {
    let html = "<link rel=\"stylesheet\" href=\"a.css\"><style>@import 'b.css';</style>";
    let server = vec![page(html), sheet("https://x.test/dir/a.css", "p { color: red }")];
    let (_, step, fetch) = drive("https://x.test/dir/page.html", &server);
    assert!(matches!(step, FetchStep::Finished));
    let page = fetch.into_page().unwrap();
    assert_eq!(page.html, html);
    assert_eq!(page.styles.len(), 1);
    assert_eq!(
        page.styles.get("https://x.test/dir/a.css"),
        Some(&"p { color: red }".to_string())
    );
}

#[test]
fn page_is_requested_under_the_address_as_given() {
    let server = vec![("HTTPS://X.test/dir/../p".to_string(), None, b"hi".to_vec())];
    let (requested, step, _) = drive("HTTPS://X.test/dir/../p", &server);
    assert!(matches!(step, FetchStep::Finished));
    assert_eq!(requested, vec!["HTTPS://X.test/dir/../p".to_string()]);
}

#[test]
fn malformed_address_fails_at_once() {
    let (fetch, step) = PageFetch::start("not an address".to_string());
    match step {
        FetchStep::Failed(FetchError::MalformedUrl(cause)) => {
            assert_eq!(cause, "relative URL without a base")
        }
        other => panic!("unexpected step {:?}", other),
    }
    assert_eq!(fetch.phase(), Phase::Failed);
    assert!(fetch.into_page().is_none());
}

#[test]
fn transport_failure_of_the_page_fails_the_fetch() {
    let (requested, step, fetch) = drive("https://x.test/dir/page.html", &vec![]);
    assert_eq!(requested.len(), 1);
    match step {
        FetchStep::Failed(FetchError::Network(cause)) => assert_eq!(cause, "connection refused"),
        other => panic!("unexpected step {:?}", other),
    }
    assert!(fetch.into_page().is_none());
}

#[test]
fn oversize_page_is_rejected_by_its_announcement() {
    let (mut fetch, _) = PageFetch::start("https://x.test/".to_string());
    let step = fetch.step(FetchEvent::Head(Some(MAX_PAGE_SIZE + 1)));
    match step {
        FetchStep::Failed(FetchError::TooLarge { what, size, limit }) => {
            assert_eq!(what, Resource::Page);
            assert_eq!(size, MAX_PAGE_SIZE + 1);
            assert_eq!(limit, MAX_PAGE_SIZE);
        }
        other => panic!("unexpected step {:?}", other),
    }
    assert_eq!(fetch.phase(), Phase::Failed);
}

#[test]
fn oversize_page_is_rejected_when_no_length_is_announced() {
    let (mut fetch, _) = PageFetch::start("https://x.test/".to_string());
    assert!(matches!(fetch.step(FetchEvent::Head(None)), FetchStep::ReadBody));
    let body = vec![b'a'; MAX_PAGE_SIZE as usize + 1];
    match fetch.step(FetchEvent::Body(body)) {
        FetchStep::Failed(error) => {
            assert!(matches!(
                error,
                FetchError::TooLarge { what: Resource::Page, size, limit }
                    if size == MAX_PAGE_SIZE + 1 && limit == MAX_PAGE_SIZE
            ));
            assert_eq!(
                error.message(),
                "page too large: 10485761 bytes exceeds 10485760 byte limit"
            );
        }
        other => panic!("unexpected step {:?}", other),
    }
}

#[test]
fn oversize_page_is_rejected_when_the_announcement_is_wrong() {
    let (mut fetch, _) = PageFetch::start("https://x.test/".to_string());
    assert!(matches!(fetch.step(FetchEvent::Head(Some(10))), FetchStep::ReadBody));
    let body = vec![b'a'; MAX_PAGE_SIZE as usize + 1];
    assert!(matches!(
        fetch.step(FetchEvent::Body(body)),
        FetchStep::Failed(FetchError::TooLarge { .. })
    ));
    assert!(fetch.into_page().is_none());
}

#[test]
fn page_of_exactly_the_limit_is_accepted() {
    let (mut fetch, _) = PageFetch::start("https://x.test/".to_string());
    assert!(matches!(fetch.step(FetchEvent::Head(Some(MAX_PAGE_SIZE))), FetchStep::ReadBody));
    let body = vec![b'a'; MAX_PAGE_SIZE as usize];
    assert!(matches!(fetch.step(FetchEvent::Body(body)), FetchStep::Finished));
    assert_eq!(fetch.into_page().unwrap().html.len(), MAX_PAGE_SIZE as usize);
}

#[test]
fn body_that_is_not_utf8_is_read_with_replacements() {
    let (mut fetch, _) = PageFetch::start("https://x.test/".to_string());
    fetch.step(FetchEvent::Head(None));
    assert!(matches!(
        fetch.step(FetchEvent::Body(vec![b'a', 0xFF, b'b'])),
        FetchStep::Finished
    ));
    assert_eq!(fetch.into_page().unwrap().html, "a\u{FFFD}b");
}

#[test]
fn event_out_of_turn_fails_the_fetch() {
    let (mut fetch, _) = PageFetch::start("https://x.test/".to_string());
    match fetch.step(FetchEvent::Body(vec![])) {
        FetchStep::Failed(FetchError::Network(cause)) => assert_eq!(cause, "unexpected event"),
        other => panic!("unexpected step {:?}", other),
    }
    assert!(matches!(fetch.step(FetchEvent::Head(None)), FetchStep::Failed(_)));
}

#[test]
fn finished_fetch_stays_finished() {
    let (mut fetch, _) = PageFetch::start("https://x.test/".to_string());
    fetch.step(FetchEvent::Head(None));
    fetch.step(FetchEvent::Body(b"<p>".to_vec()));
    assert!(matches!(fetch.step(FetchEvent::Head(None)), FetchStep::Finished));
    assert_eq!(fetch.phase(), Phase::Finished);
}

#[test]
fn stylesheets_are_fetched_in_document_order_with_imports_first() {
    let html = "<link rel=stylesheet href=a.css><link rel=stylesheet href=\"/b.css\">";
    let server = vec![
        page(html),
        sheet("https://x.test/dir/a.css", "@import 'sub/a1.css'; @import url(a2.css);"),
        sheet("https://x.test/dir/sub/a1.css", "@import \"deep.css\";"),
        sheet("https://x.test/dir/sub/deep.css", "i {}"),
        sheet("https://x.test/dir/a2.css", "j {}"),
        sheet("https://x.test/b.css", "k {}"),
    ];
    let (requested, step, fetch) = drive("https://x.test/dir/page.html", &server);
    assert!(matches!(step, FetchStep::Finished));
    assert_eq!(
        requested,
        vec![
            "https://x.test/dir/page.html",
            "https://x.test/dir/a.css",
            "https://x.test/dir/sub/a1.css",
            "https://x.test/dir/sub/deep.css",
            "https://x.test/dir/a2.css",
            "https://x.test/b.css",
        ]
    );
    let page = fetch.into_page().unwrap();
    assert_eq!(page.styles.len(), 5);
    assert_eq!(page.styles.url_at(0), "https://x.test/dir/a.css");
    assert_eq!(page.styles.css_at(2), "i {}");
    assert_eq!(page.styles.get("https://x.test/b.css"), Some(&"k {}".to_string()));
}

#[test]
fn import_cycle_ends() {
    let html = "<link rel=stylesheet href=a.css>";
    let server = vec![
        page(html),
        sheet("https://x.test/dir/a.css", "@import 'b.css';"),
        sheet("https://x.test/dir/b.css", "@import 'a.css';"),
    ];
    let (requested, step, fetch) = drive("https://x.test/dir/page.html", &server);
    assert!(matches!(step, FetchStep::Finished));
    assert_eq!(
        requested,
        vec![
            "https://x.test/dir/page.html",
            "https://x.test/dir/a.css",
            "https://x.test/dir/b.css",
        ]
    );
    assert_eq!(fetch.stylesheet_count(), 2);
}

#[test]
fn stylesheet_that_imports_itself_is_fetched_once() {
    let server = vec![
        page("<link rel=stylesheet href=a.css>"),
        sheet("https://x.test/dir/a.css", "@import 'a.css'; @import './a.css';"),
    ];
    let (requested, _, fetch) = drive("https://x.test/dir/page.html", &server);
    assert_eq!(requested.len(), 2);
    assert_eq!(fetch.stylesheet_count(), 1);
}

#[test]
fn import_chain_stops_at_the_depth_limit() {
    let server = vec![
        page("<link rel=stylesheet href=c0.css>"),
        sheet("https://x.test/dir/c0.css", "@import 'c1.css';"),
        sheet("https://x.test/dir/c1.css", "@import 'c2.css';"),
        sheet("https://x.test/dir/c2.css", "@import 'c3.css';"),
        sheet("https://x.test/dir/c3.css", "@import 'c4.css';"),
        sheet("https://x.test/dir/c4.css", "@import 'c5.css';"),
        sheet("https://x.test/dir/c5.css", ""),
    ];
    let (requested, step, fetch) = drive("https://x.test/dir/page.html", &server);
    assert!(matches!(step, FetchStep::Finished));
    assert_eq!(requested.last().unwrap(), "https://x.test/dir/c3.css");
    assert_eq!(requested.len(), 5);
    assert_eq!(fetch.stylesheet_count(), 4);
}

#[test]
fn of_fifty_one_links_fifty_are_fetched() {
    let mut html = String::new();
    let mut server = Vec::new();
    for i in 0..51 {
        html.push_str(&format!("<link rel=\"stylesheet\" href=\"s{}.css\">", i));
        server.push(sheet(&format!("https://x.test/dir/s{}.css", i), "a {}"));
    }
    server.push(page(&html));
    let (requested, step, fetch) = drive("https://x.test/dir/page.html", &server);
    assert!(matches!(step, FetchStep::Finished));
    assert_eq!(requested.len(), 1 + 50);
    assert_eq!(requested[50], "https://x.test/dir/s49.css");
    assert!(!requested.contains(&"https://x.test/dir/s50.css".to_string()));
    assert_eq!(fetch.stylesheet_count(), 50);
}

#[test]
fn imports_are_dropped_once_fifty_stylesheets_are_cached() {
    let mut first = String::new();
    let mut server = Vec::new();
    for i in 0..60 {
        first.push_str(&format!("@import 'i{}.css';", i));
        server.push(sheet(&format!("https://x.test/dir/i{}.css", i), "a {}"));
    }
    server.push(sheet("https://x.test/dir/first.css", &first));
    server.push(sheet("https://x.test/dir/second.css", "@import 'late.css';"));
    server.push(sheet("https://x.test/dir/late.css", "b {}"));
    server.push(page(
        "<link rel=stylesheet href=first.css><link rel=stylesheet href=second.css>",
    ));
    let (requested, step, fetch) = drive("https://x.test/dir/page.html", &server);
    assert!(matches!(step, FetchStep::Finished));
    // the page, first.css and 49 of its imports; with fifty cached the
    // second link is passed over like every import
    assert_eq!(requested.len(), 1 + 1 + 49);
    assert_eq!(requested[50], "https://x.test/dir/i48.css");
    assert!(!requested.contains(&"https://x.test/dir/second.css".to_string()));
    assert_eq!(fetch.stylesheet_count(), 50);
    assert_eq!(fetch.into_page().unwrap().styles.len(), 50);
}

#[test]
fn fifty_links_beside_sixty_imports_give_fifty_stylesheets() {
    let mut html = String::new();
    let mut first = String::new();
    let mut server = Vec::new();
    for i in 0..60 {
        first.push_str(&format!("@import 'i{}.css';", i));
        server.push(sheet(&format!("https://x.test/dir/i{}.css", i), "a {}"));
    }
    for i in 0..50 {
        html.push_str(&format!("<link rel=\"stylesheet\" href=\"s{}.css\">", i));
        let body = if i == 0 { first.as_str() } else { "b {}" };
        server.push(sheet(&format!("https://x.test/dir/s{}.css", i), body));
    }
    server.push(page(&html));
    let (requested, step, fetch) = drive("https://x.test/dir/page.html", &server);
    assert!(matches!(step, FetchStep::Finished));
    assert_eq!(requested.len(), 1 + 50);
    assert_eq!(requested[1], "https://x.test/dir/s0.css");
    assert_eq!(requested[50], "https://x.test/dir/i48.css");
    let page = fetch.into_page().unwrap();
    assert_eq!(page.styles.len(), 50);
    assert!(page.styles.contains("https://x.test/dir/s0.css"));
    assert!(!page.styles.contains("https://x.test/dir/s1.css"));
}

#[test]
fn link_is_followed_while_the_cache_has_room() {
    let mut first = String::new();
    let mut server = Vec::new();
    for i in 0..48 {
        first.push_str(&format!("@import 'i{}.css';", i));
        server.push(sheet(&format!("https://x.test/dir/i{}.css", i), "a {}"));
    }
    server.push(sheet("https://x.test/dir/first.css", &first));
    server.push(sheet("https://x.test/dir/second.css", "@import 'late.css';"));
    server.push(sheet("https://x.test/dir/late.css", "b {}"));
    server.push(page(
        "<link rel=stylesheet href=first.css><link rel=stylesheet href=second.css>\
         <link rel=stylesheet href=third.css>",
    ));
    let (requested, _, fetch) = drive("https://x.test/dir/page.html", &server);
    // 49 cached after the first link and its imports: the second link fills
    // the cache, its import and the third link are passed over
    assert_eq!(requested.len(), 1 + 1 + 48 + 1);
    assert_eq!(requested[50], "https://x.test/dir/second.css");
    assert_eq!(fetch.stylesheet_count(), 50);
}

#[test]
fn failing_or_oversize_stylesheet_is_passed_over() {
    let big = vec![b' '; MAX_CSS_SIZE as usize + 1];
    let server = vec![
        page(
            "<link rel=stylesheet href=gone.css>\
             <link rel=stylesheet href=announced.css>\
             <link rel=stylesheet href=big.css>\
             <link rel=stylesheet href=ok.css>",
        ),
        ("https://x.test/dir/announced.css".to_string(), Some(MAX_CSS_SIZE + 1), vec![]),
        ("https://x.test/dir/big.css".to_string(), None, big),
        sheet("https://x.test/dir/ok.css", "p {}"),
    ];
    let (requested, step, fetch) = drive("https://x.test/dir/page.html", &server);
    assert!(matches!(step, FetchStep::Finished));
    assert_eq!(requested.len(), 5);
    let page = fetch.into_page().unwrap();
    assert_eq!(page.styles.len(), 1);
    assert!(page.styles.contains("https://x.test/dir/ok.css"));
    assert!(!page.styles.contains("https://x.test/dir/big.css"));
}

#[test]
fn body_failure_of_a_stylesheet_is_passed_over() {
    let (mut fetch, _) = PageFetch::start("https://x.test/".to_string());
    fetch.step(FetchEvent::Head(None));
    let step = fetch.step(FetchEvent::Body(
        b"<link rel=stylesheet href=a.css><link rel=stylesheet href=b.css>".to_vec(),
    ));
    assert!(matches!(step, FetchStep::Get(ref u) if u == "https://x.test/a.css"));
    assert_eq!(fetch.phase(), Phase::StyleHead);
    assert!(matches!(fetch.step(FetchEvent::Head(Some(3))), FetchStep::ReadBody));
    assert_eq!(fetch.phase(), Phase::StyleBody);
    let step = fetch.step(FetchEvent::Failed("reset".to_string()));
    assert!(matches!(step, FetchStep::Get(ref u) if u == "https://x.test/b.css"));
    assert_eq!(fetch.stylesheet_count(), 0);
}

#[test]
fn duplicate_links_are_fetched_once() {
    let server = vec![
        page("<link rel=stylesheet href=a.css><link rel=stylesheet href='./a.css'>"),
        sheet("https://x.test/dir/a.css", "p {}"),
    ];
    let (requested, _, _) = drive("https://x.test/dir/page.html", &server);
    assert_eq!(requested.len(), 2);
}

#[test]
fn unquoted_address_ends_at_a_slash() {
    // an unquoted value runs to the first slash, so this link names the page itself
    let server = vec![page("<link rel=stylesheet href=/b.css>")];
    let (requested, step, fetch) = drive("https://x.test/dir/page.html", &server);
    assert!(matches!(step, FetchStep::Finished));
    assert_eq!(
        requested,
        vec!["https://x.test/dir/page.html", "https://x.test/dir/page.html"]
    );
    assert_eq!(fetch.stylesheet_count(), 1);
}

#[test]
fn links_resolve_against_the_page() {
    let base = parse("https://x.test/dir/page.html").unwrap();
    let links = extract_stylesheet_links(
        "<link rel=stylesheet href=a.css><link rel=stylesheet href=\"https://cdn.test/b.css\">\
         <link rel=stylesheet href=\"https://:bad\">",
        &base,
    );
    let hrefs: Vec<&str> = links.iter().map(|u| u.href.as_str()).collect();
    assert_eq!(hrefs, vec!["https://x.test/dir/a.css", "https://cdn.test/b.css"]);
}

#[test]
fn imports_resolve_against_the_stylesheet() {
    let base = parse("https://x.test/css/site.css").unwrap();
    let imports = extract_css_imports("@import '../other/o.css'; @import url(p.css);", &base);
    let hrefs: Vec<&str> = imports.iter().map(|u| u.href.as_str()).collect();
    assert_eq!(hrefs, vec!["https://x.test/other/o.css", "https://x.test/css/p.css"]);
}

#[test]
fn unresolvable_references_are_left_out() {
    let hrefs = vec!["a.css".to_string(), "https://:bad".to_string(), "b.css".to_string()];
    let urls = resolve_all(&hrefs, "https://x.test/");
    assert_eq!(urls.len(), 2);
    assert_eq!(urls[1].href, "https://x.test/b.css");
    assert_eq!(resolve_all(&hrefs, "no base").len(), 0);
}

#[test]
fn cap_keeps_the_first_fifty() {
    let hrefs: Vec<String> = (0..70).map(|i| format!("s{}.css", i)).collect();
    let capped = cap_links(resolve_all(&hrefs, "https://x.test/"));
    assert_eq!(capped.len(), 50);
    assert_eq!(capped[49].href, "https://x.test/s49.css");
    let few = cap_links(resolve_all(&hrefs[..3].to_vec(), "https://x.test/"));
    assert_eq!(few.len(), 3);
}

#[test]
fn image_within_the_limit_is_handed_on() {
    assert_eq!(admit_image(Some(3), vec![1, 2, 3]).unwrap(), vec![1, 2, 3]);
    assert_eq!(admit_image(None, vec![]).unwrap(), Vec::<u8>::new());
    assert_eq!(
        admit_image(None, vec![0; MAX_IMAGE_SIZE as usize]).unwrap().len(),
        MAX_IMAGE_SIZE as usize
    );
}

#[test]
fn oversize_image_is_rejected_either_way() {
    let e = admit_image(Some(MAX_IMAGE_SIZE + 1), vec![1]).unwrap_err();
    assert_eq!(e.message(), "image too large: 10485761 bytes exceeds 10485760 byte limit");
    let e = admit_image(Some(1), vec![0; MAX_IMAGE_SIZE as usize + 2]).unwrap_err();
    assert_eq!(e.message(), "image too large: 10485762 bytes exceeds 10485760 byte limit");
    assert!(admit_image(None, vec![0; MAX_IMAGE_SIZE as usize + 1]).is_err());
}

#[test]
fn fetched_page_is_the_document() {
    let mut styles = StylesheetCache::new();
    styles.insert("https://x.test/a.css".to_string(), "p {}".to_string());
    let page = Page { html: "<p>hi</p>".to_string(), styles };
    let (html, styles) = document_for("https://x.test/", Ok(page));
    assert_eq!(html, "<p>hi</p>");
    assert_eq!(styles.unwrap().len(), 1);
}

#[test]
fn failed_fetch_gives_the_failure_document() {
    let (html, styles) = document_for(
        "https://x.test/?a=1&b=<2>",
        Err(FetchError::Network("dns error: \"x.test\"".to_string())),
    );
    assert_eq!(
        html,
        "<html><body><h1>Failed to load</h1><p>https://x.test/?a=1&amp;b=&lt;2&gt;</p>\
         <p>dns error: &quot;x.test&quot;</p></body></html>"
    );
    assert!(styles.is_none());
}
