use baliusd::errors::KvError;
use baliusd::kv::KvStore;

#[test]
fn set_then_get_returns_the_same_bytes() {
    let mut kv = KvStore::new();
    kv.set(&b"color".to_vec(), b"blue".to_vec());
    assert_eq!(kv.get(&b"color".to_vec()).unwrap(), b"blue".to_vec());
}

#[test]
fn set_is_last_writer_wins() {
    let mut kv = KvStore::new();
    kv.set(&b"k".to_vec(), b"one".to_vec());
    kv.set(&b"k".to_vec(), b"two".to_vec());
    assert_eq!(kv.get(&b"k".to_vec()).unwrap(), b"two".to_vec());
}

#[test]
fn rebinding_the_same_value_changes_nothing() {
    let mut kv = KvStore::new();
    kv.set(&b"k".to_vec(), b"v".to_vec());
    kv.set(&b"k".to_vec(), b"v".to_vec());
    assert_eq!(kv.get(&b"k".to_vec()).unwrap(), b"v".to_vec());
    assert_eq!(kv.list(&b"".to_vec()).len(), 1);
}

#[test]
fn get_missing_key_is_not_found_with_the_key() {
    let kv = KvStore::new();
    match kv.get(&b"absent".to_vec()) {
        Err(KvError::NotFound(k)) => assert_eq!(k, b"absent".to_vec()),
        other => panic!("expected NotFound, got {:?}", other.is_ok()),
    }
}

#[test]
fn list_returns_exactly_the_prefixed_keys_ascending() {
    let mut kv = KvStore::new();
    kv.set(&b"b".to_vec(), vec![0]);
    kv.set(&b"abc".to_vec(), vec![1]);
    kv.set(&b"a".to_vec(), vec![2]);
    kv.set(&b"ab".to_vec(), vec![3]);
    let listed = kv.list(&b"ab".to_vec());
    assert_eq!(listed, vec![b"ab".to_vec(), b"abc".to_vec()]);
    let all = kv.list(&b"".to_vec());
    assert_eq!(
        all,
        vec![b"a".to_vec(), b"ab".to_vec(), b"abc".to_vec(), b"b".to_vec()]
    );
}

#[test]
fn empty_values_and_empty_keys_are_bindings_too() {
    let mut kv = KvStore::new();
    kv.set(&Vec::new(), Vec::new());
    assert_eq!(kv.get(&Vec::new()).unwrap(), Vec::<u8>::new());
    assert_eq!(kv.list(&Vec::new()), vec![Vec::<u8>::new()]);
}

#[test]
fn list_with_unmatched_prefix_is_empty() {
    let mut kv = KvStore::new();
    kv.set(&b"a".to_vec(), vec![1]);
    assert!(kv.list(&b"z".to_vec()).is_empty());
}
