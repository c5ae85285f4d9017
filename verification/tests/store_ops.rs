use proxy_pipeline::StateStore;

#[test]
fn store_starts_empty() {
    let store = StateStore::new();
    assert_eq!(store.get("anything", 1), None);
}

#[test]
fn store_set_then_get() {
    let mut store = StateStore::new();
    store.set("hits", 7, "1");
    assert_eq!(store.get("hits", 7), Some(String::from("1")));
    assert_eq!(store.get("hits", 8), None);
    assert_eq!(store.get("misses", 7), None);
}

#[test]
fn store_later_set_shadows_earlier() {
    let mut store = StateStore::new();
    store.set("k", 1, "first");
    store.set("k", 1, "second");
    assert_eq!(store.get("k", 1), Some(String::from("second")));
}

#[test]
fn store_same_key_different_request_ids() {
    let mut store = StateStore::new();
    store.set("k", 1, "one");
    store.set("k", 2, "two");
    assert_eq!(store.get("k", 1), Some(String::from("one")));
    assert_eq!(store.get("k", 2), Some(String::from("two")));
}

#[test]
fn store_clear_drops_everything() {
    let mut store = StateStore::new();
    store.set("a", 1, "x");
    store.set("b", 2, "y");
    store.clear();
    assert_eq!(store.get("a", 1), None);
    assert_eq!(store.get("b", 2), None);
}
