use kv_harness::message::KvEntry;
use kv_harness::message::bulk_key;
use kv_harness::message::bulk_value;
use kv_harness::message::create_kv_entry;
use kv_harness::payload::generate_random_bytes;
use kv_harness::store::ModelStore;

#[test]
fn put_get_round_trip_max_sizes() {
    let mut store = ModelStore::new();
    let key = generate_random_bytes(kv_harness::MAX_KEY_SIZE);
    let value = generate_random_bytes(kv_harness::MAX_VALUE_SIZE);
    store.put(create_kv_entry(key.clone(), value.clone()));
    assert_eq!(store.get(&key), Some(value));
}

#[test]
fn put_get_round_trip_small() {
    let mut store = ModelStore::new();
    store.put(create_kv_entry(b"alpha".to_vec(), b"one".to_vec()));
    store.put(create_kv_entry(b"beta".to_vec(), b"two".to_vec()));
    assert_eq!(store.get(&b"alpha".to_vec()), Some(b"one".to_vec()));
    assert_eq!(store.get(&b"beta".to_vec()), Some(b"two".to_vec()));
}

#[test]
fn get_absent_is_none() {
    let store = ModelStore::new();
    assert_eq!(store.get(&b"nothing".to_vec()), None);
}

#[test]
fn empty_value_is_distinct_from_absence() {
    let mut store = ModelStore::new();
    store.put(create_kv_entry(b"k".to_vec(), Vec::new()));
    assert_eq!(store.get(&b"k".to_vec()), Some(Vec::new()));
    assert_eq!(store.get(&b"other".to_vec()), None);
}

#[test]
fn put_overwrites_value() {
    let mut store = ModelStore::new();
    store.put(create_kv_entry(b"k".to_vec(), b"first".to_vec()));
    store.put(create_kv_entry(b"k".to_vec(), b"second".to_vec()));
    assert_eq!(store.get(&b"k".to_vec()), Some(b"second".to_vec()));
}

#[test]
fn delete_then_get_reports_absence() {
    let mut store = ModelStore::new();
    let key = generate_random_bytes(kv_harness::MAX_KEY_SIZE);
    let value = generate_random_bytes(kv_harness::MAX_VALUE_SIZE);
    store.put(create_kv_entry(key.clone(), value));
    let existed = store.delete(&key);
    assert!(existed);
    assert_eq!(store.get(&key), None);
}

#[test]
fn delete_of_never_put_key_is_noop() {
    let mut store = ModelStore::new();
    store.put(create_kv_entry(b"kept".to_vec(), b"v".to_vec()));
    let existed = store.delete(&b"xiao".to_vec());
    assert!(!existed);
    assert_eq!(store.get(&b"kept".to_vec()), Some(b"v".to_vec()));
}

#[test]
fn scan_after_put_sees_exactly_the_key() {
    let mut store = ModelStore::new();
    let key = generate_random_bytes(kv_harness::MAX_KEY_SIZE);
    let value = generate_random_bytes(kv_harness::MAX_VALUE_SIZE);
    store.put(create_kv_entry(key.clone(), value));
    let entries = store.scan(&key, 1, false, true);
    assert_eq!(entries.len(), 1);
    assert_eq!(entries[0].key, key);
    assert!(entries[0].value.is_empty());
}

#[test]
fn scan_bulk_returns_ten_ascending() {
    let mut store = ModelStore::new();
    for i in 0..20u64 {
        store.put(create_kv_entry(bulk_key(i), bulk_value(i)));
    }
    let entries = store.scan(&b"xiao0".to_vec(), 10, false, false);
    assert_eq!(entries.len(), 10);
    let expected: Vec<u64> = vec![0, 1, 10, 11, 12, 13, 14, 15, 16, 17];
    for (pos, i) in expected.iter().enumerate() {
        assert_eq!(entries[pos].key, bulk_key(*i));
        assert_eq!(entries[pos].value, bulk_value(*i));
    }
    for pos in 1..entries.len() {
        assert!(entries[pos - 1].key < entries[pos].key);
    }
}

#[test]
fn scan_key_only_leaves_values_empty() {
    let mut store = ModelStore::new();
    for i in 0..5u64 {
        store.put(create_kv_entry(bulk_key(i), bulk_value(i)));
    }
    let entries = store.scan(&b"xiao0".to_vec(), 5, false, true);
    assert_eq!(entries.len(), 5);
    for e in &entries {
        assert!(e.value.is_empty());
    }
}

#[test]
fn scan_reverse_descends_from_start_key() {
    let mut store = ModelStore::new();
    store.put(create_kv_entry(b"a".to_vec(), b"1".to_vec()));
    store.put(create_kv_entry(b"b".to_vec(), b"2".to_vec()));
    store.put(create_kv_entry(b"c".to_vec(), b"3".to_vec()));
    let entries = store.scan(&b"b".to_vec(), 2, true, false);
    assert_eq!(entries.len(), 2);
    assert_eq!(entries[0].key, b"b".to_vec());
    assert_eq!(entries[1].key, b"a".to_vec());
}

#[test]
fn scan_limit_zero_returns_nothing() {
    let mut store = ModelStore::new();
    store.put(create_kv_entry(b"a".to_vec(), b"1".to_vec()));
    let entries = store.scan(&b"a".to_vec(), 0, false, false);
    assert!(entries.is_empty());
}

#[test]
fn scan_limit_caps_result() {
    let mut store = ModelStore::new();
    for i in 0..20u64 {
        store.put(create_kv_entry(bulk_key(i), bulk_value(i)));
    }
    let entries = store.scan(&b"xiao".to_vec(), 7, false, false);
    assert_eq!(entries.len(), 7);
}

#[test]
fn kv_entry_keeps_its_components() {
    let e: KvEntry = create_kv_entry(b"k".to_vec(), b"v".to_vec());
    assert_eq!(e.key, b"k".to_vec());
    assert_eq!(e.value, b"v".to_vec());
}
