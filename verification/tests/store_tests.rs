use baliusd::codec::{decode_entry, encode_entry, varint_read, varint_write, LogEntry};
use baliusd::store::ShardStore;

#[test]
fn varint_small_value_is_one_byte() {
    let mut out: Vec<u8> = Vec::new();
    varint_write(5, &mut out);
    assert_eq!(out, vec![5]);
    assert_eq!(varint_read(&out, 0), Some((5, 1)));
}

#[test]
fn varint_multi_byte_roundtrip() {
    let mut out: Vec<u8> = Vec::new();
    varint_write(300, &mut out);
    assert_eq!(out, vec![0xAC, 0x02]);
    assert_eq!(varint_read(&out, 0), Some((300, 2)));
    let mut big: Vec<u8> = Vec::new();
    varint_write(u64::MAX, &mut big);
    assert_eq!(varint_read(&big, 0), Some((u64::MAX, 10)));
}

#[test]
fn entry_encoding_is_length_prefixed_fields() {
    let entry = LogEntry { next_block: vec![1, 2, 3], undo_blocks: vec![vec![4]] };
    let encoded = encode_entry(&entry);
    assert_eq!(encoded, vec![0x0A, 3, 1, 2, 3, 0x12, 1, 4]);
}

#[test]
fn entry_roundtrip_restores_fields() {
    let entry = LogEntry {
        next_block: vec![9, 8, 7, 6],
        undo_blocks: vec![vec![1], vec![], vec![2, 3]],
    };
    let encoded = encode_entry(&entry);
    let decoded = decode_entry(&encoded).expect("encoded entry must decode");
    assert_eq!(decoded.next_block, vec![9, 8, 7, 6]);
    assert_eq!(decoded.undo_blocks, vec![vec![1], vec![], vec![2, 3]]);
}

#[test]
fn empty_next_block_is_omitted_on_the_wire() {
    let entry = LogEntry { next_block: Vec::new(), undo_blocks: vec![vec![5, 6]] };
    let encoded = encode_entry(&entry);
    assert_eq!(encoded, vec![0x12, 2, 5, 6]);
    let decoded = decode_entry(&encoded).expect("encoded entry must decode");
    assert!(decoded.next_block.is_empty());
    assert_eq!(decoded.undo_blocks, vec![vec![5, 6]]);
}

#[test]
fn entry_decode_rejects_unknown_tag() {
    assert!(decode_entry(&vec![0x99, 1, 0]).is_none());
}

#[test]
fn entry_decode_rejects_truncated_field() {
    assert!(decode_entry(&vec![0x0A, 5, 1, 2]).is_none());
}

#[test]
fn write_ahead_assigns_contiguous_sequences() {
    let mut store = ShardStore::new();
    for expected in 1..=5u64 {
        let seq = store.write_ahead(Vec::new(), vec![expected as u8]);
        assert_eq!(seq, expected);
    }
}

#[test]
fn find_chain_point_returns_the_appended_block() {
    let mut store = ShardStore::new();
    let seq = store.write_ahead(vec![vec![7]], vec![1, 2, 3]);
    assert_eq!(store.find_chain_point(seq).unwrap(), Some(vec![1, 2, 3]));
    assert_eq!(store.find_chain_point(0).unwrap(), None);
    assert_eq!(store.find_chain_point(seq + 1).unwrap(), None);
}

#[test]
fn atomic_cursor_advance() {
    let mut store = ShardStore::new();
    let mut seq: u64 = 0;
    for _ in 0..42 {
        seq = store.write_ahead(Vec::new(), vec![0]);
    }
    assert_eq!(seq, 42);
    let seq = store.write_ahead(Vec::new(), vec![1]);
    assert_eq!(seq, 43);
    let mut au = store.start_atomic_update(seq);
    au.update_worker_cursor("wA");
    au.update_worker_cursor("wB");
    store.apply_commit(&au, true);
    assert_eq!(store.get_worker_cursor("wA"), Some(43));
    assert_eq!(store.get_worker_cursor("wB"), Some(43));
}

#[test]
fn failed_commit_advances_no_cursor() {
    let mut store = ShardStore::new();
    for _ in 0..42 {
        store.write_ahead(Vec::new(), vec![0]);
    }
    let mut first = store.start_atomic_update(42);
    first.update_worker_cursor("wA");
    first.update_worker_cursor("wB");
    store.apply_commit(&first, true);
    store.write_ahead(Vec::new(), vec![1]);
    let mut second = store.start_atomic_update(43);
    second.update_worker_cursor("wA");
    second.update_worker_cursor("wB");
    store.apply_commit(&second, false);
    assert_eq!(store.get_worker_cursor("wA"), Some(42));
    assert_eq!(store.get_worker_cursor("wB"), Some(42));
}

#[test]
fn staging_coalesces_duplicates() {
    let mut store = ShardStore::new();
    store.write_ahead(Vec::new(), vec![0]);
    let mut au = store.start_atomic_update(1);
    au.update_worker_cursor("w");
    au.update_worker_cursor("w");
    store.apply_commit(&au, true);
    assert_eq!(store.get_worker_cursor("w"), Some(1));
    assert_eq!(store.get_worker_cursor("other"), None);
}
