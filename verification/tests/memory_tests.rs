use oracle_omen::memory::{Document, DocumentValue, Filter, MemoryStore, MergeResult,
    Operation, ProvenanceRecord, ProvenanceTracker, QueryBuilder};

#[test]
fn test_document_creation() {
    let doc = Document::new("test", DocumentValue::String("value".to_string()), 1);
    assert_eq!(doc.key, "test");
    assert!(!doc.hash.is_zero());
}

#[test]
fn test_document_merge() {
    let mut doc1 = Document::new("key", DocumentValue::Integer(10), 1);
    let doc2 = Document::new("key", DocumentValue::Integer(20), 2);
    let result = doc1.merge(doc2);
    assert_eq!(result, MergeResult::Merged);
    assert_eq!(doc1.value, DocumentValue::Integer(20));
}

#[test]
fn test_document_merge_lww() {
    let mut doc1 = Document::new("key", DocumentValue::Integer(20), 2);
    let doc2 = Document::new("key", DocumentValue::Integer(10), 1);
    let result = doc1.merge(doc2);
    assert_eq!(result, MergeResult::Unchanged);
    assert_eq!(doc1.value, DocumentValue::Integer(20));
}

#[test]
fn test_document_merge_key_mismatch() {
    let mut doc1 = Document::new("key1", DocumentValue::Integer(10), 1);
    let doc2 = Document::new("key2", DocumentValue::Integer(20), 2);
    let result = doc1.merge(doc2);
    assert_eq!(result, MergeResult::KeyMismatch);
}

#[test]
fn merge_with_equal_twin_is_unchanged() {
    // Last-writer-wins: merging a document with an equal copy of itself
    // changes nothing.
    let mut doc = Document::new("key", DocumentValue::Integer(10), 3);
    let twin = Document::new("key", DocumentValue::Integer(10), 3);
    let before = doc.hash();
    assert_eq!(doc.merge(twin), MergeResult::Unchanged);
    assert_eq!(doc.hash(), before);
}

#[test]
fn test_provenance_record() {
    let record = ProvenanceRecord::new(1, Operation::Write, "test_key")
        .with_value_hash("abc123")
        .with_timestamp(100);
    assert_eq!(record.causal_event, 1);
    assert_eq!(record.key, "test_key");
    assert_eq!(record.value_hash, Some("abc123".to_string()));
}

#[test]
fn test_provenance_tracker() {
    let mut tracker = ProvenanceTracker::new();
    tracker.record(ProvenanceRecord::new(1, Operation::Write, "key1"));
    tracker.record(ProvenanceRecord::new(1, Operation::Write, "key2"));
    tracker.record(ProvenanceRecord::new(2, Operation::Delete, "key1"));
    assert_eq!(tracker.records_for_event(1).len(), 2);
    assert_eq!(tracker.records_for_event(2).len(), 1);
    assert_eq!(tracker.history_for_key("key1"), vec![1, 2]);
    assert_eq!(tracker.history_for_key("key2"), vec![1]);
}

#[test]
fn test_provenance_trace() {
    let mut tracker = ProvenanceTracker::new();
    tracker.record(ProvenanceRecord::new(1, Operation::Write, "test"));
    tracker.record(ProvenanceRecord::new(2, Operation::Write, "test"));
    tracker.record(ProvenanceRecord::new(3, Operation::Delete, "test"));
    let trace = tracker.trace("test");
    assert_eq!(trace.len(), 3);
}

#[test]
fn test_deterministic_query() {
    let mut store = MemoryStore::new();
    store.write(Document::new("b", DocumentValue::Integer(2), 1));
    store.write(Document::new("a", DocumentValue::Integer(1), 1));
    store.write(Document::new("c", DocumentValue::Integer(3), 1));
    let keys = store.keys();
    assert_eq!(keys, vec!["a", "b", "c"]);
}

#[test]
fn test_query_builder() {
    let mut store = MemoryStore::new();
    store.write(Document::new("key1", DocumentValue::Integer(1), 1));
    store.write(Document::new("key2", DocumentValue::String("test".to_string()), 1));
    store.write(Document::new("prefix_a", DocumentValue::Integer(2), 1));
    store.write(Document::new("prefix_b", DocumentValue::Integer(3), 1));
    let results = QueryBuilder::new(&store)
        .filter(Filter::KeyPrefix("prefix_".to_string()))
        .execute()
        .unwrap();
    assert_eq!(results.len(), 2);
    assert_eq!(results[0].key, "prefix_a");
    assert_eq!(results[1].key, "prefix_b");
}

#[test]
fn test_query_filter_type() {
    let mut store = MemoryStore::new();
    store.write(Document::new("a", DocumentValue::Integer(1), 1));
    store.write(Document::new("b", DocumentValue::String("test".to_string()), 1));
    store.write(Document::new("c", DocumentValue::Integer(2), 1));
    let results = QueryBuilder::new(&store)
        .filter(Filter::TypeEquals("integer".to_string()))
        .execute()
        .unwrap();
    assert_eq!(results.len(), 2);
}

#[test]
fn test_memory_store_write_read() {
    let mut store = MemoryStore::new();
    let doc = Document::new("test", DocumentValue::String("value".to_string()), 1);
    store.write(doc);
    assert_eq!(store.len(), 1);
    let read = store.read("test");
    assert!(read.is_some());
    assert_eq!(read.unwrap().value, DocumentValue::String("value".to_string()));
}

#[test]
fn test_memory_store_provenance() {
    let mut store = MemoryStore::new();
    store.write(Document::new("key1", DocumentValue::Integer(10), 1));
    store.write(Document::new("key2", DocumentValue::Integer(20), 1));
    let keys = store.keys_for_event(1);
    assert_eq!(keys, vec!["key1".to_string(), "key2".to_string()]);
}

#[test]
fn test_memory_store_delete() {
    let mut store = MemoryStore::new();
    store.write(Document::new("test", DocumentValue::String("value".to_string()), 1));
    let result = store.delete("test", 2);
    assert_eq!(result, oracle_omen::memory::DeleteResult::Deleted);
    assert_eq!(store.len(), 0);
}

#[test]
fn delete_marks_provenance_with_bang() {
    let mut store = MemoryStore::new();
    store.write(Document::new("test", DocumentValue::Integer(1), 1));
    store.delete("test", 2);
    assert_eq!(store.keys_for_event(2), vec!["!test".to_string()]);
}

#[test]
fn test_store_hash_changes() {
    let mut store = MemoryStore::new();
    let hash1 = store.hash();
    store.write(Document::new("test", DocumentValue::String("value".to_string()), 1));
    let hash2 = store.hash();
    assert_ne!(hash1, hash2);
}
