use preset::store::{PresetStore, StoreError};

fn lines(store: &PresetStore, name: &str) -> Vec<String> {
    store.get(name).expect("preset exists").clone()
}

#[test]
fn create_then_list_shows_empty_preset() {
    let mut store = PresetStore::new();
    assert_eq!(store.create("build"), Ok(()));
    let all = store.list();
    assert_eq!(all.len(), 1);
    assert_eq!(all[0].name, "build");
    assert!(all[0].commands.is_empty());
}

#[test]
fn second_create_fails_and_changes_nothing() {
    let mut store = PresetStore::new();
    store.create("build").unwrap();
    store.append("build", "make").unwrap();
    assert_eq!(store.create("build"), Err(StoreError::PresetAlreadyExists));
    assert_eq!(lines(&store, "build"), vec!["make".to_string()]);
    assert_eq!(store.list().len(), 1);
}

#[test]
fn appends_keep_their_order() {
    let mut store = PresetStore::new();
    store.create("p").unwrap();
    store.append("p", "echo a").unwrap();
    store.append("p", "echo b").unwrap();
    store.append("p", "echo c").unwrap();
    assert_eq!(lines(&store, "p"), vec!["echo a", "echo b", "echo c"]);
}

#[test]
fn append_to_missing_preset_fails() {
    let mut store = PresetStore::new();
    assert_eq!(store.append("nope", "ls"), Err(StoreError::PresetNotFound));
    assert!(store.list().is_empty());
}

#[test]
fn insert_splices_at_index() {
    let mut store = PresetStore::new();
    store.create("p").unwrap();
    store.append("p", "a").unwrap();
    store.append("p", "c").unwrap();
    assert_eq!(store.insert("p", 1, "b"), Ok(()));
    assert_eq!(lines(&store, "p"), vec!["a", "b", "c"]);
    assert_eq!(store.insert("p", 0, "start"), Ok(()));
    assert_eq!(lines(&store, "p"), vec!["start", "a", "b", "c"]);
}

#[test]
fn insert_at_length_appends() {
    let mut store = PresetStore::new();
    store.create("p").unwrap();
    store.append("p", "a").unwrap();
    assert_eq!(store.insert("p", 1, "z"), Ok(()));
    assert_eq!(lines(&store, "p"), vec!["a", "z"]);
}

#[test]
fn insert_past_length_fails_without_change() {
    let mut store = PresetStore::new();
    store.create("p").unwrap();
    store.append("p", "a").unwrap();
    assert_eq!(store.insert("p", 2, "z"), Err(StoreError::IndexOutOfRange));
    assert_eq!(lines(&store, "p"), vec!["a"]);
    assert_eq!(store.insert("q", 0, "z"), Err(StoreError::PresetNotFound));
}

#[test]
fn remove_by_value_takes_first_occurrence_only() {
    let mut store = PresetStore::new();
    store.create("p").unwrap();
    for c in ["x", "y", "x", "z"] {
        store.append("p", c).unwrap();
    }
    assert_eq!(store.remove_by_value("p", "x"), Ok(()));
    assert_eq!(lines(&store, "p"), vec!["y", "x", "z"]);
}

#[test]
fn remove_absent_value_fails_without_change() {
    let mut store = PresetStore::new();
    store.create("p").unwrap();
    store.append("p", "x").unwrap();
    assert_eq!(store.remove_by_value("p", "w"), Err(StoreError::CommandNotPresent));
    assert_eq!(lines(&store, "p"), vec!["x"]);
    assert_eq!(store.remove_by_value("q", "x"), Err(StoreError::PresetNotFound));
}

#[test]
fn pop_returns_removed_element() {
    let mut store = PresetStore::new();
    store.create("p").unwrap();
    for c in ["a", "b", "c"] {
        store.append("p", c).unwrap();
    }
    assert_eq!(store.pop("p", 1), Ok("b".to_string()));
    assert_eq!(lines(&store, "p"), vec!["a", "c"]);
}

#[test]
fn pop_out_of_range_fails_without_change() {
    let mut store = PresetStore::new();
    store.create("p").unwrap();
    store.append("p", "a").unwrap();
    assert_eq!(store.pop("p", 1), Err(StoreError::IndexOutOfRange));
    assert_eq!(lines(&store, "p"), vec!["a"]);
    assert_eq!(store.pop("q", 0), Err(StoreError::PresetNotFound));
}

#[test]
fn delete_removes_whole_preset() {
    let mut store = PresetStore::new();
    store.create("p").unwrap();
    store.create("q").unwrap();
    assert_eq!(store.delete("p"), Ok(()));
    assert!(store.get("p").is_none());
    assert!(store.get("q").is_some());
    assert_eq!(store.delete("p"), Err(StoreError::PresetNotFound));
}
