use tasksync::cache::{CacheError, CacheStore, Namespace};
use tasksync::record::{EventFields, Payload, Record};

fn event(id: &str, title: &str) -> Record {
    Record {
        id: id.to_string(),
        payload: Payload::Event(EventFields {
            title: title.to_string(),
            description: Some("desc".to_string()),
            date_start: Some("2024-05-01".to_string()),
            date_end: Some("2024-05-01".to_string()),
            time_start: Some("09:00".to_string()),
            time_end: Some("10:00".to_string()),
            location: None,
            latitude_microdeg: Some(52_520_000),
            longitude_microdeg: Some(13_405_000),
        }),
        updated_at: Some("2024-05-01T08:00:00Z".to_string()),
        pending_sync: false,
    }
}

#[test]
fn load_before_any_save_is_empty() {
    let store = CacheStore::new();
    assert!(store.load(Namespace::Tasks).is_empty());
    assert!(store.load(Namespace::Events).is_empty());
}

#[test]
fn save_then_load_round_trips() {
    let mut store = CacheStore::new();
    let records = vec![event("a", "standup"), event("b", "review")];
    store.save(Namespace::Events, records.clone());
    let loaded = store.load(Namespace::Events);
    assert_eq!(loaded, records);
}

#[test]
fn save_replaces_the_whole_set() {
    let mut store = CacheStore::new();
    store.save(Namespace::Events, vec![event("a", "old")]);
    let replacement = vec![event("b", "new")];
    store.save(Namespace::Events, replacement.clone());
    assert_eq!(store.load(Namespace::Events), replacement);
}

#[test]
fn namespaces_are_independent() {
    let mut store = CacheStore::new();
    let events = vec![event("a", "standup")];
    store.save(Namespace::Events, events.clone());
    assert!(store.load(Namespace::Tasks).is_empty());
    store.save(Namespace::Tasks, vec![]);
    assert_eq!(store.load(Namespace::Events), events);
}

#[test]
fn clear_of_missing_namespace_is_not_found() {
    let mut store = CacheStore::new();
    assert_eq!(store.clear(Namespace::Events), Err(CacheError::NotFound));
}

#[test]
fn clear_removes_a_saved_namespace() {
    let mut store = CacheStore::new();
    store.save(Namespace::Events, vec![event("a", "standup")]);
    assert_eq!(store.clear(Namespace::Events), Ok(()));
    assert!(store.load(Namespace::Events).is_empty());
    assert_eq!(store.clear(Namespace::Events), Err(CacheError::NotFound));
}

#[test]
fn empty_save_is_a_present_empty_set() {
    let mut store = CacheStore::new();
    store.save(Namespace::Tasks, vec![]);
    assert!(store.load(Namespace::Tasks).is_empty());
    assert_eq!(store.clear(Namespace::Tasks), Ok(()));
}
