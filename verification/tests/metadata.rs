use toss::metadata::{record_to_store, Origin, OutputMetadata};

fn origin(name: &str, folder_id: &str) -> Origin {
    Origin { name: name.to_string(), folder_id: folder_id.to_string() }
}

#[test]
fn new_record_knows_nothing() {
    let record = OutputMetadata::new();
    assert_eq!(record.get("a.jpg"), None);
    assert!(record.file_origins.is_empty());
    assert_eq!(OutputMetadata::default(), OutputMetadata::new());
}

#[test]
fn insert_then_get() {
    let mut record = OutputMetadata::new();
    record.insert("a.jpg".to_string(), "f1".to_string());
    record.insert("b.jpg".to_string(), "f2".to_string());
    assert_eq!(record.get("a.jpg"), Some("f1".to_string()));
    assert_eq!(record.get("b.jpg"), Some("f2".to_string()));
    assert_eq!(record.get("c.jpg"), None);
}

#[test]
fn later_entry_wins() {
    let mut record = OutputMetadata::new();
    record.insert("a.jpg".to_string(), "f1".to_string());
    record.insert("a.jpg".to_string(), "f2".to_string());
    assert_eq!(record.get("a.jpg"), Some("f2".to_string()));
}

#[test]
fn with_origins_adds_in_order() {
    let mut record = OutputMetadata::new();
    record.insert("a.jpg".to_string(), "f1".to_string());
    let added = record.with_origins(&vec![origin("b.jpg", "f2"), origin("a.jpg", "f3")]);
    assert_eq!(
        added.file_origins,
        vec![origin("a.jpg", "f1"), origin("b.jpg", "f2"), origin("a.jpg", "f3")]
    );
    assert_eq!(added.get("a.jpg"), Some("f3".to_string()));
    assert_eq!(added.get("b.jpg"), Some("f2".to_string()));
}

#[test]
fn names_are_compared_exactly() {
    let mut record = OutputMetadata::new();
    record.insert("a.jpg".to_string(), "f1".to_string());
    assert_eq!(record.get("A.JPG"), None);
    assert_eq!(record.get("a.jpg "), None);
}

#[test]
fn stored_record_is_what_was_read_with_the_origins_added() {
    let mut read = OutputMetadata::new();
    read.insert("a.jpg".to_string(), "f1".to_string());
    let stored = record_to_store(Some(read), &vec![origin("b.jpg", "f2")]);
    assert_eq!(stored.file_origins, vec![origin("a.jpg", "f1"), origin("b.jpg", "f2")]);
}

#[test]
fn stored_record_starts_empty_where_nothing_was_read() {
    let stored = record_to_store(None, &vec![origin("b.jpg", "f2")]);
    assert_eq!(stored.file_origins, vec![origin("b.jpg", "f2")]);
    assert_eq!(record_to_store(None, &vec![]), OutputMetadata::new());
}
