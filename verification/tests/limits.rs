use iced_webview::cache::StylesheetCache;
use iced_webview::limits::{
    admit_body, admit_head, size_limit, FetchError, Resource, MAX_CSS_SIZE, MAX_IMAGE_SIZE,
    MAX_IMPORT_DEPTH, MAX_PAGE_SIZE, MAX_STYLESHEETS, REQUEST_TIMEOUT_SECS,
};

#[test]
fn the_limits() {
    assert_eq!(MAX_PAGE_SIZE, 10_485_760);
    assert_eq!(MAX_IMAGE_SIZE, 10_485_760);
    assert_eq!(MAX_CSS_SIZE, 5_242_880);
    assert_eq!(MAX_STYLESHEETS, 50);
    assert_eq!(MAX_IMPORT_DEPTH, 3);
    assert_eq!(REQUEST_TIMEOUT_SECS, 30);
    assert_eq!(size_limit(Resource::Page), MAX_PAGE_SIZE);
    assert_eq!(size_limit(Resource::Image), MAX_IMAGE_SIZE);
    assert_eq!(size_limit(Resource::Stylesheet), MAX_CSS_SIZE);
}

#[test]
fn head_is_judged_by_the_announcement() {
    assert!(admit_head(Resource::Page, None).is_ok());
    assert!(admit_head(Resource::Page, Some(0)).is_ok());
    assert!(admit_head(Resource::Page, Some(MAX_PAGE_SIZE)).is_ok());
    assert!(admit_head(Resource::Page, Some(MAX_PAGE_SIZE + 1)).is_err());
    assert!(admit_head(Resource::Stylesheet, Some(MAX_CSS_SIZE + 1)).is_err());
    assert!(admit_head(Resource::Stylesheet, Some(MAX_CSS_SIZE)).is_ok());
    assert!(admit_head(Resource::Image, Some(u64::MAX)).is_err());
}

#[test]
fn body_is_judged_by_what_arrived() {
    assert!(admit_body(Resource::Page, 0).is_ok());
    assert!(admit_body(Resource::Page, MAX_PAGE_SIZE as usize).is_ok());
    assert!(admit_body(Resource::Page, MAX_PAGE_SIZE as usize + 1).is_err());
    assert!(admit_body(Resource::Stylesheet, MAX_CSS_SIZE as usize + 1).is_err());
}

#[test]
fn too_large_names_the_size_and_the_limit() {
    match admit_head(Resource::Stylesheet, Some(6_000_000)) {
        Err(FetchError::TooLarge { what, size, limit }) => {
            assert_eq!(what, Resource::Stylesheet);
            assert_eq!(size, 6_000_000);
            assert_eq!(limit, MAX_CSS_SIZE);
        }
        other => panic!("unexpected {:?}", other),
    }
}

#[test]
fn messages() {
    let e = FetchError::TooLarge { what: Resource::Page, size: 0, limit: 7 };
    assert_eq!(e.message(), "page too large: 0 bytes exceeds 7 byte limit");
    let e = FetchError::TooLarge { what: Resource::Stylesheet, size: u64::MAX, limit: 1000 };
    assert_eq!(
        e.message(),
        "stylesheet too large: 18446744073709551615 bytes exceeds 1000 byte limit"
    );
    assert_eq!(FetchError::Network("timed out".to_string()).message(), "timed out");
    assert_eq!(FetchError::MalformedUrl("empty host".to_string()).message(), "empty host");
}

#[test]
fn cache_keeps_the_first_text_for_an_address() {
    let mut cache = StylesheetCache::new();
    assert_eq!(cache.len(), 0);
    assert!(!cache.contains("a"));
    assert!(cache.insert("a".to_string(), "one".to_string()));
    assert!(cache.insert("b".to_string(), "two".to_string()));
    assert!(!cache.insert("a".to_string(), "three".to_string()));
    assert_eq!(cache.len(), 2);
    assert_eq!(cache.get("a"), Some(&"one".to_string()));
    assert_eq!(cache.get("b"), Some(&"two".to_string()));
    assert_eq!(cache.get("c"), None);
    assert_eq!(cache.url_at(1), "b");
    assert_eq!(cache.css_at(0), "one");
}
