use ping0::entry::{Entry, EntryKind};
use ping0::ids::is_valid_code;
use ping0::store::MappingStore;
use ping0::submit::{check_link, draw_codes, SubmitError, MAX_CODE_ATTEMPTS};
use ping0::upload::StoredFile;

fn strings(v: &[&str]) -> Vec<String> {
    v.iter().map(|s| s.to_string()).collect()
}

#[test]
fn links_are_checked() {
    assert_eq!(check_link(""), Err(SubmitError::NoInput));
    assert_eq!(check_link("example.com"), Err(SubmitError::InvalidUrl));
    assert_eq!(check_link("ftp://example.com"), Err(SubmitError::InvalidUrl));
    assert_eq!(check_link("http://example.com"), Ok(()));
    assert_eq!(check_link("https://example.com"), Ok(()));
}

#[test]
fn retry_policy_is_small_and_bounded() {
    assert!(MAX_CODE_ATTEMPTS >= 2);
    assert!(MAX_CODE_ATTEMPTS <= 10);
}

#[test]
fn first_free_candidate_is_taken() {
    let mut store = MappingStore::new();
    store.insert(Entry::url("taken001".to_string(), "https://a".to_string(), 1)).unwrap();
    store.insert(Entry::url("taken002".to_string(), "https://b".to_string(), 2)).unwrap();
    let r = store.register_with(
        &strings(&["taken001", "taken002", "free0001", "free0002"]),
        EntryKind::Url,
        "https://c",
        3,
    );
    assert_eq!(r, Ok("free0001".to_string()));
    assert_eq!(store.len(), 3);
    let e = store.get("free0001").unwrap();
    assert_eq!(e.kind, EntryKind::Url);
    assert_eq!(e.value, "https://c");
    assert_eq!(e.created_at, 3);
    assert!(store.get("free0002").is_none());
    assert_eq!(store.get("taken001").unwrap().value, "https://a");
}

#[test]
fn collisions_exhaust_the_candidates() {
    let mut store = MappingStore::new();
    store.insert(Entry::url("taken001".to_string(), "https://a".to_string(), 1)).unwrap();
    let r = store.register_with(
        &strings(&["taken001", "taken001", "taken001"]),
        EntryKind::File,
        "id.png",
        3,
    );
    assert_eq!(r, Err(SubmitError::CodesExhausted));
    assert_eq!(store.len(), 1);
    assert_eq!(store.get("taken001").unwrap().value, "https://a");
    let r = store.register_with(&Vec::new(), EntryKind::File, "id.png", 3);
    assert_eq!(r, Err(SubmitError::CodesExhausted));
    assert_eq!(store.len(), 1);
}

#[test]
fn registration_draws_fresh_codes() {
    let mut store = MappingStore::new();
    let mut seen = Vec::new();
    for i in 0..50 {
        let code = store.register(EntryKind::Url, "https://example.com", i).unwrap();
        assert!(is_valid_code(&code));
        assert!(!seen.contains(&code));
        assert_eq!(store.get(&code).unwrap().created_at, i);
        seen.push(code);
    }
    assert_eq!(store.len(), 50);
}

#[test]
fn submitted_link_is_stored_as_given() {
    let mut store = MappingStore::new();
    let code = store.submit_link("https://example.com/x?y=z", 77).unwrap();
    let e = store.get(&code).unwrap();
    assert_eq!(e.kind, EntryKind::Url);
    assert_eq!(e.value, "https://example.com/x?y=z");
    assert_eq!(e.created_at, 77);
    assert_eq!(store.submit_link("", 78), Err(SubmitError::NoInput));
    assert_eq!(store.submit_link("nope", 78), Err(SubmitError::InvalidUrl));
    assert_eq!(store.len(), 1);
}

#[test]
fn submitted_file_is_stored_by_its_generated_name() {
    let mut store = MappingStore::new();
    let file = StoredFile { generated_name: "0b0e.png".to_string() };
    let code = store.submit_file(&file, 5).unwrap();
    let e = store.get(&code).unwrap();
    assert_eq!(e.kind, EntryKind::File);
    assert_eq!(e.value, "0b0e.png");
    assert_eq!(e.persisted_value(), "file:0b0e.png");
}

#[test]
fn draws_are_codes() {
    for count in [0usize, 1, MAX_CODE_ATTEMPTS, 12] {
        let codes = draw_codes(count);
        assert_eq!(codes.len(), count);
        assert!(codes.iter().all(|c| is_valid_code(c)));
    }
}

#[test]
fn taken_code_is_followed_by_the_next_draw() {
    let mut store = MappingStore::new();
    let mut drawn = draw_codes(MAX_CODE_ATTEMPTS);
    store.insert(Entry::url(drawn[0].clone(), "https://a".to_string(), 1)).unwrap();
    store.insert(Entry::url(drawn[1].clone(), "https://b".to_string(), 2)).unwrap();
    let r = store.register_with(&drawn, EntryKind::Url, "https://c", 3);
    assert_eq!(r, Ok(drawn[2].clone()));
    assert_eq!(store.get(&drawn[0]).unwrap().value, "https://a");
    assert_eq!(store.get(&drawn[1]).unwrap().value, "https://b");
    assert_eq!(store.get(&drawn[2]).unwrap().value, "https://c");
    assert_eq!(store.len(), 3);
    drawn.truncate(3);
    let r = store.register_with(&drawn, EntryKind::Url, "https://d", 4);
    assert_eq!(r, Err(SubmitError::CodesExhausted));
    assert_eq!(store.len(), 3);
}

#[test]
fn empty_store_always_registers() {
    for i in 0..20 {
        let mut store = MappingStore::new();
        assert!(store.register(EntryKind::Url, "https://example.com", i).is_ok());
        assert_eq!(store.len(), 1);
    }
}
