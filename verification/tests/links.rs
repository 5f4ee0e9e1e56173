use ping0::links::{ensure_absolute, file_url, is_http, short_link};

#[test]
fn http_and_https_are_recognised() {
    assert!(is_http("http://example.com"));
    assert!(is_http("https://example.com"));
    assert!(is_http("http://"));
    assert!(!is_http("ftp://example.com"));
    assert!(!is_http("HTTP://example.com"));
    assert!(!is_http("example.com"));
    assert!(!is_http(" http://example.com"));
    assert!(!is_http(""));
    assert!(!is_http("http:/"));
}

#[test]
fn absolute_addresses_are_kept() {
    assert_eq!(ensure_absolute("http://base", "https://x.y/s/abc"), "https://x.y/s/abc");
    assert_eq!(ensure_absolute("", "http://x"), "http://x");
}

#[test]
fn relative_addresses_are_joined_by_one_slash() {
    assert_eq!(ensure_absolute("http://base", "s/abc"), "http://base/s/abc");
    assert_eq!(ensure_absolute("http://base/", "/s/abc"), "http://base/s/abc");
    assert_eq!(ensure_absolute("http://base///", "///s/abc"), "http://base/s/abc");
    assert_eq!(ensure_absolute("http://base", ""), "http://base/");
    assert_eq!(ensure_absolute("", "x"), "/x");
    assert_eq!(ensure_absolute("/", "/"), "/");
}

#[test]
fn short_and_file_links() {
    assert_eq!(short_link("https://0.id.vn", "Ab3_-xyz"), "https://0.id.vn/s/Ab3_-xyz");
    assert_eq!(file_url("https://0.id.vn", "id.png"), "https://0.id.vn/files/id.png");
    assert_eq!(short_link("", ""), "/s/");
    assert_eq!(file_url("", ""), "/files/");
}
