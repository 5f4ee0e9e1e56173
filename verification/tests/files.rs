use ping0::files::{extension, extension_or_bin, file_name, is_allowed_extension, is_image_extension};

#[test]
fn extension_is_what_follows_the_last_dot() {
    assert_eq!(extension("photo.png"), Some("png".to_string()));
    assert_eq!(extension("archive.tar.gz"), Some("gz".to_string()));
    assert_eq!(extension("dir.d/readme"), None);
    assert_eq!(extension("a/b/c.TXT"), Some("TXT".to_string()));
}

#[test]
fn extension_of_odd_names() {
    assert_eq!(extension(""), None);
    assert_eq!(extension(".bashrc"), None);
    assert_eq!(extension(".."), None);
    assert_eq!(extension("."), None);
    assert_eq!(extension("name."), Some("".to_string()));
    assert_eq!(extension("..."), Some("".to_string()));
    assert_eq!(extension("foo.txt/"), Some("txt".to_string()));
    assert_eq!(extension("foo.txt/."), Some("txt".to_string()));
    assert_eq!(extension("foo.txt/.."), None);
    assert_eq!(extension("/"), None);
}

#[test]
fn extension_agrees_with_std_on_this_platform() {
    let names = [
        "photo.png", "a.b/c", "a/b.c/", "a/b.c/.", "x/..", "..", ".", "", ".x", "x.", "a..b",
        "/a/./b.tar.gz//", "./", "a/./", "..a", ".a.b", "./.", "a/.b", "a/.b.c",
    ];
    for n in names {
        let std_ext = std::path::Path::new(n).extension().and_then(|e| e.to_str()).map(|e| e.to_string());
        assert_eq!(extension(n), std_ext, "extension of {:?}", n);
        let std_name = std::path::Path::new(n).file_name().and_then(|e| e.to_str()).map(|e| e.to_string());
        assert_eq!(file_name(n), std_name, "file name of {:?}", n);
    }
}

#[test]
fn missing_extension_counts_as_bin() {
    assert_eq!(extension_or_bin("README"), "bin");
    assert_eq!(extension_or_bin("notes.md"), "md");
    assert!(!is_allowed_extension(&extension_or_bin("README")));
}

#[test]
fn allow_list_ignores_case() {
    for e in ["jpg", "JPG", "Jpeg", "png", "gif", "webp", "svg", "pdf", "txt", "md", "csv", "json",
        "doc", "docx", "xls", "xlsx", "ppt", "pptx", "zip", "tar", "gz", "rar", "7z", "mp3", "MP4",
        "mov", "webm"] {
        assert!(is_allowed_extension(e), "{} should be allowed", e);
    }
    for e in ["exe", "bin", "", "sh", "html", "js", "jpg ", "p ng", "php"] {
        assert!(!is_allowed_extension(e), "{} should be refused", e);
    }
}

#[test]
fn image_types() {
    for e in ["jpg", "jpeg", "PNG", "gif", "webp", "SVG"] {
        assert!(is_image_extension(e));
    }
    for e in ["pdf", "txt", "mp4", "", "bmp"] {
        assert!(!is_image_extension(e));
    }
}
