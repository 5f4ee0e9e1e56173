use ping0::entry::Entry;
use ping0::resolve::{resolve, resolve_entry, wants_html, Action};
use ping0::store::MappingStore;

const BASE: &str = "https://0.id.vn";

fn file(code: &str, name: &str) -> Entry {
    Entry::file(code.to_string(), name.to_string(), 1)
}

#[test]
fn html_preference_is_read_from_accept() {
    assert!(wants_html("text/html"));
    assert!(wants_html("text/html,application/xhtml+xml,application/xml;q=0.9,*/*;q=0.8"));
    assert!(wants_html("TEXT/HTML"));
    assert!(wants_html("image/png, Text/Html;q=0.1"));
    assert!(!wants_html(""));
    assert!(!wants_html("*/*"));
    assert!(!wants_html("image/avif,image/webp,image/png,image/svg+xml,image/*;q=0.8"));
    assert!(!wants_html("text/htm"));
    assert!(!wants_html("text / html"));
}

#[test]
fn unknown_code_is_not_found() {
    let store = MappingStore::new();
    assert!(matches!(resolve(&store, "abcdefgh", "text/html", BASE), Action::NotFound));
    assert!(matches!(resolve_entry(None, "text/html", BASE), Action::NotFound));
}

#[test]
fn url_round_trip_is_a_permanent_redirect() {
    let mut store = MappingStore::new();
    let url = "https://example.com/a path/?q=ü&x=%20#frag";
    store.insert(Entry::url("abcdefgh".to_string(), url.to_string(), 1)).unwrap();
    for accept in ["text/html", "*/*", ""] {
        match resolve(&store, "abcdefgh", accept, BASE) {
            Action::RedirectPermanent(to) => assert_eq!(to, url),
            other => panic!("unexpected {:?}", other),
        }
    }
}

#[test]
fn image_for_a_browser_is_a_preview_page() {
    let e = file("abcdefgh", "0b0e.png");
    match resolve_entry(Some(&e), "text/html,application/xhtml+xml", BASE) {
        Action::RenderPreview(page) => {
            assert_eq!(page.og_image_url, "https://0.id.vn/files/0b0e.png");
            assert_eq!(page.full_image_url, "https://0.id.vn/files/0b0e.png");
            assert_eq!(page.page_url, "https://0.id.vn/s/abcdefgh");
            assert_eq!(page.title, "Shared Image");
            assert_eq!(page.description, "Shared via 0.id.vn");
        }
        other => panic!("unexpected {:?}", other),
    }
}

#[test]
fn image_for_a_tool_is_the_image_itself() {
    let e = file("abcdefgh", "0b0e.png");
    match resolve_entry(Some(&e), "image/*", BASE) {
        Action::RedirectPermanent(to) => assert_eq!(to, "https://0.id.vn/files/0b0e.png"),
        other => panic!("unexpected {:?}", other),
    }
    match resolve_entry(Some(&e), "", BASE) {
        Action::RedirectPermanent(to) => assert_eq!(to, "https://0.id.vn/files/0b0e.png"),
        other => panic!("unexpected {:?}", other),
    }
}

#[test]
fn every_image_type_is_negotiated() {
    for ext in ["jpg", "jpeg", "png", "gif", "webp", "svg", "JPG", "Png"] {
        let e = file("abcdefgh", &format!("id.{}", ext));
        assert!(matches!(resolve_entry(Some(&e), "text/html", BASE), Action::RenderPreview(_)));
        assert!(matches!(resolve_entry(Some(&e), "*/*", BASE), Action::RedirectPermanent(_)));
    }
}

#[test]
fn other_file_is_a_download_page() {
    let e = file("abcdefgh", "0b0e.pdf");
    for accept in ["text/html", "*/*"] {
        match resolve_entry(Some(&e), accept, BASE) {
            Action::RenderFileInfo(page) => {
                assert_eq!(page.filename, "0b0e.pdf");
                assert_eq!(page.file_url, "https://0.id.vn/files/0b0e.pdf");
                assert_eq!(page.mime, "application/pdf");
                assert_eq!(page.page_url, "https://0.id.vn/s/abcdefgh");
            }
            other => panic!("unexpected {:?}", other),
        }
    }
}

#[test]
fn download_page_shows_the_file_name_only() {
    let e = file("abcdefgh", "dir/0b0e.tar.gz");
    match resolve_entry(Some(&e), "text/html", BASE) {
        Action::RenderFileInfo(page) => {
            assert_eq!(page.filename, "0b0e.tar.gz");
            assert_eq!(page.file_url, "https://0.id.vn/files/dir/0b0e.tar.gz");
            assert_eq!(page.mime, "application/gzip");
        }
        other => panic!("unexpected {:?}", other),
    }
}

#[test]
fn file_without_extension_is_not_found() {
    let e = file("abcdefgh", "0b0e");
    assert!(matches!(resolve_entry(Some(&e), "text/html", BASE), Action::NotFound));
    let e = file("abcdefgh", ".hidden");
    assert!(matches!(resolve_entry(Some(&e), "*/*", BASE), Action::NotFound));
}

#[test]
fn unknown_type_is_octet_stream() {
    let e = file("abcdefgh", "0b0e.blahblah");
    match resolve_entry(Some(&e), "text/html", BASE) {
        Action::RenderFileInfo(page) => assert_eq!(page.mime, "application/octet-stream"),
        other => panic!("unexpected {:?}", other),
    }
}
