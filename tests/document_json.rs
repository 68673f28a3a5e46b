use preset::store::{PresetStore, StoreError};

#[test]
fn empty_store_is_empty_object() {
    let store = PresetStore::new();
    assert_eq!(store.to_json(), Ok("{}".to_string()));
}

#[test]
fn pretty_text_of_one_preset() {
    let mut store = PresetStore::new();
    store.create("p").unwrap();
    store.append("p", "echo a").unwrap();
    store.create("e").unwrap();
    let text = store.to_json().unwrap();
    assert_eq!(text, "{\n  \"e\": [],\n  \"p\": [\n    \"echo a\"\n  ]\n}");
}

#[test]
fn save_then_load_keeps_mapping() {
    let mut store = PresetStore::new();
    store.create("build").unwrap();
    store.append("build", "cargo build").unwrap();
    store.append("build", "echo \"done\" {}").unwrap();
    store.create("empty").unwrap();
    let text = store.to_json().unwrap();
    let loaded = PresetStore::from_json(&text).unwrap();
    assert_eq!(loaded.list().len(), 2);
    assert_eq!(loaded.get("build").unwrap(), store.get("build").unwrap());
    assert!(loaded.get("empty").unwrap().is_empty());
}

#[test]
fn load_reads_document() {
    let loaded = PresetStore::from_json("{\"a\": [\"x\", \"y\"]}").unwrap();
    assert_eq!(loaded.get("a").unwrap(), &vec!["x".to_string(), "y".to_string()]);
    assert!(PresetStore::from_json("{}").unwrap().list().is_empty());
}

#[test]
fn load_rejects_malformed_text() {
    assert!(matches!(PresetStore::from_json("[1, 2"), Err(StoreError::StorageUnreadable)));
    assert!(matches!(PresetStore::from_json("{\"a\": 3}"), Err(StoreError::StorageUnreadable)));
}
