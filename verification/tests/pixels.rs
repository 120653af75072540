use iced_webview::keys::{char_key_code, modifiers, named_key_code, NamedKey};
use iced_webview::page::{display_url, note_change, PageType, ViewSize};
use iced_webview::paths::{engine_cache_dir, prepend_search_path};
use iced_webview::pixels::{
    swap_red_blue, unpremultiply_rgba, ImageInfo, PixelFormat, WebViewPrimitive,
};

#[test]
fn unpremultiply_divides_colour_by_alpha() {
    // half-transparent: 64 * 255 / 128 rounds to 128
    assert_eq!(unpremultiply_rgba(&[64, 32, 0, 128]), vec![128, 64, 0, 128]);
    // (10 * 255 + 1) / 3 = 850, limited to 255
    assert_eq!(unpremultiply_rgba(&[10, 1, 0, 3]), vec![255, 85, 0, 3]);
}

#[test]
fn unpremultiply_keeps_opaque_pixels() {
    assert_eq!(unpremultiply_rgba(&[1, 2, 3, 255, 250, 0, 17, 255]), vec![1, 2, 3, 255, 250, 0, 17, 255]);
}

#[test]
fn unpremultiply_clears_transparent_pixels() {
    assert_eq!(unpremultiply_rgba(&[9, 9, 9, 0]), vec![0, 0, 0, 0]);
}

#[test]
fn unpremultiply_drops_an_incomplete_pixel() {
    assert_eq!(unpremultiply_rgba(&[1, 2, 3, 255, 7, 7]), vec![1, 2, 3, 255]);
    assert_eq!(unpremultiply_rgba(&[1, 2, 3]), Vec::<u8>::new());
    assert_eq!(unpremultiply_rgba(&[]), Vec::<u8>::new());
}

#[test]
fn swap_exchanges_red_and_blue() {
    let mut p = vec![1, 2, 3, 4, 5, 6, 7, 8, 9];
    swap_red_blue(&mut p);
    assert_eq!(p, vec![3, 2, 1, 4, 7, 6, 5, 8, 9]);
}

#[test]
fn frame_in_bgra_is_brought_to_rgba() {
    let info = ImageInfo::new(vec![1, 2, 3, 4], PixelFormat::Bgra, 1, 1);
    assert_eq!(info.pixels(), &vec![3, 2, 1, 4]);
    assert_eq!(info.image_width(), 1);
    assert_eq!(info.image_height(), 1);
    let info = ImageInfo::new(vec![1, 2, 3, 4], PixelFormat::Rgba, 1, 1);
    assert_eq!(info.pixels(), &vec![1, 2, 3, 4]);
}

#[test]
fn blank_frame_is_white() {
    let info = ImageInfo::blank(2, 3);
    assert_eq!(info.pixels(), &vec![255u8; 24]);
    assert_eq!(info.image_width(), 2);
    assert_eq!(info.image_height(), 3);
    assert_eq!(ImageInfo::blank(0, 5).pixels().len(), 0);
}

#[test]
fn placeholder_frame() {
    let info = ImageInfo::placeholder();
    assert_eq!(info.image_width(), 800);
    assert_eq!(info.image_height(), 800);
    assert_eq!(info.pixels().len(), 800 * 800 * 4);
    assert!(info.pixels().iter().all(|b| *b == 255));
}

#[test]
fn primitive_is_uploaded_only_if_the_pixels_fit() {
    let fits = WebViewPrimitive { pixels: vec![0; 24], width: 2, height: 3 };
    assert!(fits.can_upload());
    assert!(fits.is_visible());
    let short = WebViewPrimitive { pixels: vec![0; 23], width: 2, height: 3 };
    assert!(!short.can_upload());
    let long = WebViewPrimitive { pixels: vec![0; 28], width: 2, height: 3 };
    assert!(!long.can_upload());
    let empty = WebViewPrimitive { pixels: vec![], width: 0, height: 3 };
    assert!(!empty.can_upload());
    assert!(!empty.is_visible());
}

#[test]
fn primitive_asks_for_a_texture_of_its_own_size() {
    let p = WebViewPrimitive::of_frame(&ImageInfo::blank(4, 2));
    assert_eq!(p.width, 4);
    assert_eq!(p.height, 2);
    assert_eq!(p.pixels.len(), 32);
    assert!(p.needs_new_texture(1, 1));
    assert!(p.needs_new_texture(4, 1));
    assert!(!p.needs_new_texture(4, 2));
}

#[test]
fn view_without_address_shows_about_blank() {
    assert_eq!(display_url(""), "about:blank");
    assert_eq!(display_url("https://x.test/"), "https://x.test/");
}

#[test]
fn sizes() {
    assert_eq!(ViewSize::initial(), ViewSize { width: 1920, height: 1080 });
    assert_eq!(
        ViewSize { width: 0, height: 7 }.at_least_one(),
        ViewSize { width: 1, height: 7 }
    );
    assert_eq!(
        ViewSize { width: 3, height: 0 }.at_least_one(),
        ViewSize { width: 3, height: 1 }
    );
}

#[test]
fn page_types_compare() {
    assert_eq!(PageType::Url("a".to_string()), PageType::Url("a".to_string()));
    assert_ne!(PageType::Url("a".to_string()), PageType::Html("a".to_string()));
    assert!(PageType::Url("z".to_string()) < PageType::Html("a".to_string()));
}

#[test]
fn named_keys() {
    assert_eq!(named_key_code(NamedKey::Enter), (0x0D, 0x0D));
    assert_eq!(named_key_code(NamedKey::Delete), (0x2E, 0));
    assert_eq!(named_key_code(NamedKey::ArrowLeft), (0x25, 0));
    assert_eq!(named_key_code(NamedKey::F12), (0x7B, 0));
    assert_eq!(named_key_code(NamedKey::Space), (0x20, 0x20));
}

#[test]
fn character_keys() {
    assert_eq!(char_key_code('a'), (0x41, 0x61));
    assert_eq!(char_key_code('Z'), (0x5A, 0x5A));
    assert_eq!(char_key_code('1'), (0x31, 0x31));
    assert_eq!(char_key_code('é'), (0xE9, 0xE9));
    assert_eq!(char_key_code('\u{1F600}'), (0x1F600, 0xF600));
}

#[test]
fn modifier_flags() {
    assert_eq!(modifiers(false, false, false), 0);
    assert_eq!(modifiers(true, false, false), 2);
    assert_eq!(modifiers(false, true, false), 4);
    assert_eq!(modifiers(false, false, true), 8);
    assert_eq!(modifiers(true, true, true), 14);
}

#[test]
fn default_frame_is_the_placeholder() {
    let info = ImageInfo::default();
    assert_eq!(info.image_width(), 800);
    assert_eq!(info.image_height(), 800);
    assert_eq!(info.pixels(), ImageInfo::placeholder().pixels());
    let copy = info.clone();
    assert_eq!(copy.pixels().len(), 2_560_000);
}

#[test]
fn search_path_gets_the_directory_in_front() {
    assert_eq!(prepend_search_path("/opt/cef", ""), Some("/opt/cef".to_string()));
    assert_eq!(
        prepend_search_path("/opt/cef", "/usr/lib:/lib"),
        Some("/opt/cef:/usr/lib:/lib".to_string())
    );
    assert_eq!(prepend_search_path("/opt/cef", "/usr/lib:/opt/cef"), None);
    assert_eq!(prepend_search_path("/opt/cef", "/opt/cef-old"), None);
    assert_eq!(prepend_search_path("", "/usr/lib"), None);
    assert_eq!(prepend_search_path("", ""), None);
}

#[test]
fn engine_cache_directory() {
    assert_eq!(engine_cache_dir(Some("/x/cache"), Some("/home/u")), "/x/cache/iced_webview_cef");
    assert_eq!(engine_cache_dir(None, Some("/home/u")), "/home/u/.cache/iced_webview_cef");
    assert_eq!(engine_cache_dir(None, None), "/tmp/.cache/iced_webview_cef");
    assert_eq!(engine_cache_dir(Some(""), None), "/iced_webview_cef");
}

#[test]
fn change_of_a_text_is_noted_once() {
    let mut recorded = String::new();
    assert!(!note_change(&mut recorded, ""));
    assert!(note_change(&mut recorded, "https://x.test/"));
    assert_eq!(recorded, "https://x.test/");
    assert!(!note_change(&mut recorded, "https://x.test/"));
    assert!(note_change(&mut recorded, ""));
    assert_eq!(recorded, "");
}
