use ping0::entry::{Entry, EntryKind};
use ping0::store::{MappingStore, StoreError};

fn url(code: &str, at: i64) -> Entry {
    Entry::url(code.to_string(), format!("https://example.com/{}", code), at)
}

fn codes(entries: &[Entry]) -> Vec<String> {
    entries.iter().map(|e| e.code.clone()).collect()
}

#[test]
fn new_store_is_empty() {
    let store = MappingStore::new();
    assert_eq!(store.len(), 0);
    assert!(!store.contains("abcdefgh"));
    assert!(store.get("abcdefgh").is_none());
    assert!(store.list(10).is_empty());
}

#[test]
fn insert_then_get() {
    let mut store = MappingStore::new();
    assert_eq!(store.insert(url("aaaaaaaa", 10)), Ok(()));
    assert_eq!(store.len(), 1);
    assert!(store.contains("aaaaaaaa"));
    let e = store.get("aaaaaaaa").unwrap();
    assert_eq!(e.code, "aaaaaaaa");
    assert_eq!(e.kind, EntryKind::Url);
    assert_eq!(e.value, "https://example.com/aaaaaaaa");
    assert_eq!(e.created_at, 10);
    assert!(store.get("aaaaaaab").is_none());
    assert!(store.get("AAAAAAAA").is_none());
}

#[test]
fn duplicate_code_is_refused() {
    let mut store = MappingStore::new();
    assert_eq!(store.insert(url("aaaaaaaa", 10)), Ok(()));
    let other = Entry::file("aaaaaaaa".to_string(), "id.png".to_string(), 99);
    assert_eq!(store.insert(other), Err(StoreError::DuplicateCode));
    assert_eq!(store.len(), 1);
    let e = store.get("aaaaaaaa").unwrap();
    assert_eq!(e.kind, EntryKind::Url);
    assert_eq!(e.created_at, 10);
}

#[test]
fn no_two_entries_share_a_code() {
    let mut store = MappingStore::new();
    let names = ["a", "b", "a", "c", "b", "a", "d"];
    for (i, n) in names.iter().enumerate() {
        let _ = store.insert(url(n, i as i64));
    }
    let all = codes(&store.list(100));
    assert_eq!(all.len(), 4);
    for (i, a) in all.iter().enumerate() {
        for b in all.iter().skip(i + 1) {
            assert_ne!(a, b);
        }
    }
}

#[test]
fn delete_hands_the_entry_back() {
    let mut store = MappingStore::new();
    store.insert(url("aaaaaaaa", 10)).unwrap();
    store.insert(url("bbbbbbbb", 20)).unwrap();
    let gone = store.delete("aaaaaaaa").unwrap();
    assert_eq!(gone.code, "aaaaaaaa");
    assert_eq!(gone.created_at, 10);
    assert_eq!(store.len(), 1);
    assert!(store.get("aaaaaaaa").is_none());
    assert!(store.get("bbbbbbbb").is_some());
    assert_eq!(store.delete("aaaaaaaa").unwrap_err(), StoreError::NotFound);
    assert_eq!(store.delete("cccccccc").unwrap_err(), StoreError::NotFound);
    assert_eq!(store.len(), 1);
    assert_eq!(store.insert(url("aaaaaaaa", 30)), Ok(()));
    assert_eq!(store.get("aaaaaaaa").unwrap().created_at, 30);
}

#[test]
fn list_is_newest_first() {
    let mut store = MappingStore::new();
    store.insert(url("c3", 30)).unwrap();
    store.insert(url("c1", 10)).unwrap();
    store.insert(url("c5", 50)).unwrap();
    store.insert(url("c2", 20)).unwrap();
    store.insert(url("c4", 40)).unwrap();
    assert_eq!(codes(&store.list(10)), vec!["c5", "c4", "c3", "c2", "c1"]);
    assert_eq!(codes(&store.list(5)), vec!["c5", "c4", "c3", "c2", "c1"]);
    assert_eq!(codes(&store.list(2)), vec!["c5", "c4"]);
    assert_eq!(codes(&store.list(0)), Vec::<String>::new());
    assert_eq!(store.len(), 5);
}

#[test]
fn entries_of_one_time_list_latest_first() {
    let mut store = MappingStore::new();
    store.insert(url("first", 10)).unwrap();
    store.insert(url("second", 10)).unwrap();
    store.insert(url("older", 5)).unwrap();
    store.insert(url("third", 10)).unwrap();
    assert_eq!(codes(&store.list(10)), vec!["third", "second", "first", "older"]);
    store.delete("second").unwrap();
    assert_eq!(codes(&store.list(10)), vec!["third", "first", "older"]);
}

#[test]
fn negative_and_extreme_times() {
    let mut store = MappingStore::new();
    store.insert(url("min", i64::MIN)).unwrap();
    store.insert(url("max", i64::MAX)).unwrap();
    store.insert(url("zero", 0)).unwrap();
    store.insert(url("neg", -5)).unwrap();
    assert_eq!(codes(&store.list(10)), vec!["max", "zero", "neg", "min"]);
}
