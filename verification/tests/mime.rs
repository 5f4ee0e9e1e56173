use ping0::mime::media_type_of;

#[test]
fn known_extensions() {
    assert_eq!(media_type_of("pdf"), "application/pdf");
    assert_eq!(media_type_of("txt"), "text/plain");
    assert_eq!(media_type_of("zip"), "application/zip");
    assert_eq!(media_type_of("mp4"), "video/mp4");
    assert_eq!(media_type_of("png"), "image/png");
    assert_eq!(media_type_of("json"), "application/json");
    assert_eq!(media_type_of("md"), "text/markdown");
    assert_eq!(media_type_of("gz"), "application/gzip");
}

#[test]
fn case_does_not_matter() {
    assert_eq!(media_type_of("PDF"), "application/pdf");
    assert_eq!(media_type_of("Txt"), "text/plain");
}

#[test]
fn unknown_extension_is_octet_stream() {
    assert_eq!(media_type_of("blahblah"), "application/octet-stream");
    assert_eq!(media_type_of(""), "application/octet-stream");
    assert_eq!(media_type_of("p d f"), "application/octet-stream");
}

#[test]
fn agrees_with_the_table() {
    for ext in ["pdf", "csv", "doc", "docx", "xls", "xlsx", "ppt", "pptx", "tar", "rar", "7z",
        "mp3", "mov", "webm", "nope"] {
        assert_eq!(
            media_type_of(ext),
            mime_guess::from_ext(ext).first_or_octet_stream().to_string()
        );
        assert_eq!(
            media_type_of(ext),
            mime_guess::from_path(format!("stored.{}", ext)).first_or_octet_stream().to_string()
        );
    }
}
