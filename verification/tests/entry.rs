use ping0::entry::{Entry, EntryKind};

#[test]
fn kinds_as_text() {
    assert_eq!(EntryKind::Url.as_text(), "url");
    assert_eq!(EntryKind::File.as_text(), "file");
    assert_eq!(EntryKind::from_text("url"), Some(EntryKind::Url));
    assert_eq!(EntryKind::from_text("file"), Some(EntryKind::File));
    assert_eq!(EntryKind::from_text("URL"), None);
    assert_eq!(EntryKind::from_text(""), None);
    assert_eq!(EntryKind::from_text("files"), None);
}

#[test]
fn entries_are_built_as_given() {
    let u = Entry::url("abcdefgh".to_string(), "https://x.y".to_string(), 7);
    assert_eq!(u.code, "abcdefgh");
    assert_eq!(u.kind, EntryKind::Url);
    assert_eq!(u.value, "https://x.y");
    assert_eq!(u.created_at, 7);
    let f = Entry::file("abcdefgh".to_string(), "id.png".to_string(), -1);
    assert_eq!(f.kind, EntryKind::File);
    assert_eq!(f.value, "id.png");
    assert_eq!(f.created_at, -1);
    let c = f.clone();
    assert_eq!(c.code, f.code);
    assert_eq!(c.kind, f.kind);
    assert_eq!(c.value, f.value);
    assert_eq!(c.created_at, f.created_at);
}

#[test]
fn persisted_value_marks_files() {
    let u = Entry::url("c".to_string(), "https://x.y".to_string(), 0);
    assert_eq!(u.persisted_value(), "https://x.y");
    let f = Entry::file("c".to_string(), "id.png".to_string(), 0);
    assert_eq!(f.persisted_value(), "file:id.png");
}

#[test]
fn rows_read_back() {
    let e = Entry::from_row("abcdefgh", "file", "file:id.png", 12).unwrap();
    assert_eq!(e.code, "abcdefgh");
    assert_eq!(e.kind, EntryKind::File);
    assert_eq!(e.value, "id.png");
    assert_eq!(e.created_at, 12);
    let e = Entry::from_row("abcdefgh", "file", "id.png", 12).unwrap();
    assert_eq!(e.value, "id.png");
    let e = Entry::from_row("abcdefgh", "url", "file:id.png", 12).unwrap();
    assert_eq!(e.kind, EntryKind::Url);
    assert_eq!(e.value, "file:id.png");
    assert!(Entry::from_row("abcdefgh", "dir", "x", 12).is_none());
}

#[test]
fn row_round_trip() {
    for e in [
        Entry::url("a".to_string(), "https://x.y/?q=1".to_string(), 3),
        Entry::file("b".to_string(), "0b0e.tar.gz".to_string(), 4),
    ] {
        let back = Entry::from_row(&e.code, e.kind.as_text(), &e.persisted_value(), e.created_at)
            .unwrap();
        assert_eq!(back.code, e.code);
        assert_eq!(back.kind, e.kind);
        assert_eq!(back.value, e.value);
        assert_eq!(back.created_at, e.created_at);
    }
}
