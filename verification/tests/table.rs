use hash_join::entry::{HashBucket, HashEntry, ImmutableRecord};
use hash_join::error::{IOResult, LimboError};
use hash_join::key_hash::hash_join_key;
use hash_join::model::HashTableState;
use hash_join::table::{HashTable, HashTableConfig};
use hash_join::value::{key_refs, Value, ValueRef};
use std::sync::Arc;

/// A handle for I/O that does nothing: the table only keeps it.
struct MemoryIO;

/// Encodes a row for the tests: a tag and the bytes of each value.
fn record(values: &[Value]) -> ImmutableRecord {
    let mut payload: Vec<u8> = Vec::new();
    for value in values {
        match value {
            Value::Null => payload.push(0),
            Value::Integer(i) => {
                payload.push(1);
                payload.extend_from_slice(&i.to_le_bytes());
            }
            Value::Float(bits) => {
                payload.push(2);
                payload.extend_from_slice(&bits.to_le_bytes());
            }
            Value::Text(t) => {
                payload.push(3);
                payload.extend_from_slice(t);
            }
            Value::Blob(b) => {
                payload.push(4);
                payload.extend_from_slice(b);
            }
        }
    }
    ImmutableRecord::from_payload(payload)
}

fn integer_of(value: &Value) -> i64 {
    match value {
        Value::Integer(i) => *i,
        other => panic!("not an integer: {:?}", other),
    }
}

#[test]
fn test_hash_table_basic() {
    let io = Arc::new(MemoryIO);
    let config = HashTableConfig {
        initial_buckets: 4,
        mem_budget: 1024 * 1024,
        num_keys: 1,
    };
    let mut ht = HashTable::new(config, io);

    // Insert some entries
    let key1 = vec![Value::Integer(1)];
    let record1 = record(&[Value::Integer(1), Value::Text("row1".into())]);
    ht.insert(key1.clone(), record1).unwrap();

    let key2 = vec![Value::Integer(2)];
    let record2 = record(&[Value::Integer(2), Value::Text("row2".into())]);
    ht.insert(key2.clone(), record2).unwrap();

    ht.finalize_build();

    // Probe for key1
    let result = ht.probe(key1.clone());
    assert!(result.is_some());
    assert!(matches!(result.unwrap().key_values[0].as_ref(), ValueRef::Integer(1)));

    // Probe for key2
    let result = ht.probe(key2);
    assert!(result.is_some());
    assert!(matches!(result.unwrap().key_values[0].as_ref(), ValueRef::Integer(2)));

    // Probe for non-existent key
    let result = ht.probe(vec![Value::Integer(999)]);
    assert!(result.is_none());
}

#[test]
fn test_hash_table_collisions() {
    let io = Arc::new(MemoryIO);
    let config = HashTableConfig {
        initial_buckets: 2, // Small number to force collisions
        mem_budget: 1024 * 1024,
        num_keys: 1,
    };
    let mut ht = HashTable::new(config, io);

    // Insert multiple entries
    for i in 0..10 {
        let key = vec![Value::Integer(i)];
        let record = record(&[Value::Integer(i)]);
        ht.insert(key, record).unwrap();
    }

    ht.finalize_build();

    // Verify all entries can be found
    for i in 0..10 {
        let result = ht.probe(vec![Value::Integer(i)]);
        assert!(result.is_some());
        assert_eq!(integer_of(&result.unwrap().key_values[0]), i);
    }

    let stats = ht.stats();
    assert_eq!(stats.num_entries, 10);
    assert!(stats.max_chain_length > 1); // Should have collisions with only 2 buckets
}

#[test]
fn test_hash_table_duplicate_keys() {
    let io = Arc::new(MemoryIO);
    let config = HashTableConfig {
        initial_buckets: 4,
        mem_budget: 1024 * 1024,
        num_keys: 1,
    };
    let mut ht = HashTable::new(config, io);

    // Insert multiple entries with the same key
    let key = vec![Value::Integer(42)];
    for i in 0..3 {
        let record = record(&[Value::Integer(42), Value::Integer(i)]);
        ht.insert(key.clone(), record).unwrap();
    }

    ht.finalize_build();

    // Probe should return first match
    let result = ht.probe(key.clone());
    assert!(result.is_some());

    // next_match should return additional matches
    let result2 = ht.next_match();
    assert!(result2.is_some());

    let result3 = ht.next_match();
    assert!(result3.is_some());

    // No more matches
    let result4 = ht.next_match();
    assert!(result4.is_none());
}

#[test]
fn default_config_has_1024_buckets_and_64_mebibytes() {
    let config = HashTableConfig::default();
    assert_eq!(config.initial_buckets, 1024);
    assert_eq!(config.mem_budget, 67_108_864);
    assert_eq!(config.num_keys, 1);
}

#[test]
fn a_new_table_is_empty_and_being_built() {
    let config = HashTableConfig { initial_buckets: 8, mem_budget: 100, num_keys: 3 };
    let ht = HashTable::new(config, 17u8);
    assert_eq!(ht.state(), HashTableState::Building);
    assert!(ht.is_empty());
    assert_eq!(ht.num_keys(), 3);
    assert_eq!(*ht.io(), 17u8);
    let stats = ht.stats();
    assert_eq!(stats.num_buckets, 8);
    assert_eq!(stats.num_entries, 0);
    assert_eq!(stats.mem_used, 0);
    assert_eq!(stats.mem_budget, 100);
    assert!(!stats.spilled);
    assert_eq!(stats.max_chain_length, 0);
    assert_eq!(stats.num_empty_buckets, 8);
}

#[test]
fn entry_size_counts_key_row_and_hash() {
    let row = ImmutableRecord::from_payload(vec![9, 9, 9, 9]);
    let key = vec![Value::Integer(1), Value::Text(b"hello".to_vec())];
    let entry = HashEntry::new(5, key, row);
    // 8 for the integer, 5 for the text, 4 for the row, 8 for the hash.
    assert_eq!(entry.size_bytes(), 25);
    assert_eq!(entry.checked_size_bytes(), Some(25));

    let all = vec![
        Value::Null,
        Value::Integer(0),
        Value::Float(0),
        Value::Text(b"ab".to_vec()),
        Value::Blob(vec![1, 2, 3]),
    ];
    let entry = HashEntry::new(0, all, ImmutableRecord::from_payload(Vec::new()));
    // 1 + 8 + 8 + 2 + 3, no row, 8 for the hash.
    assert_eq!(entry.size_bytes(), 30);

    let bare = HashEntry::new(0, Vec::new(), ImmutableRecord::from_payload(Vec::new()));
    assert_eq!(bare.size_bytes(), 8);
}

#[test]
fn an_entry_keeps_what_it_was_made_of() {
    let row = ImmutableRecord::from_payload(vec![1, 2, 3]);
    assert_eq!(row.len(), 3);
    assert_eq!(row.get_payload(), &[1, 2, 3]);
    let entry = HashEntry::new(77, vec![Value::Integer(5)], row);
    assert_eq!(entry.hash, 77);
    assert_eq!(integer_of(&entry.key_values[0]), 5);
    assert_eq!(entry.row_data.get_payload(), &[1, 2, 3]);
    let copy = entry.clone();
    assert_eq!(copy.hash, 77);
    assert_eq!(integer_of(&copy.key_values[0]), 5);
    assert_eq!(copy.row_data.get_payload(), &[1, 2, 3]);
    assert!(entry.matches(77, &[ValueRef::Integer(5)]));
    assert!(!entry.matches(78, &[ValueRef::Integer(5)]));
    assert!(!entry.matches(77, &[ValueRef::Integer(6)]));
}

#[test]
fn a_bucket_appends_and_finds_in_insertion_order() {
    let mut bucket = HashBucket::new();
    assert!(bucket.is_empty());
    assert_eq!(bucket.len(), 0);
    assert_eq!(bucket.size_bytes(), 0);

    let key = vec![Value::Integer(1)];
    let other = vec![Value::Integer(2)];
    let hash = hash_join_key(&key_refs(&key));
    bucket.insert(HashEntry::new(hash, key.clone(), ImmutableRecord::from_payload(vec![10])));
    bucket.insert(HashEntry::new(hash, other.clone(), ImmutableRecord::from_payload(vec![20])));
    bucket.insert(HashEntry::new(hash, key.clone(), ImmutableRecord::from_payload(vec![30])));
    // The right key under another hash: the hash is compared first.
    bucket.insert(HashEntry::new(hash ^ 1, key.clone(), ImmutableRecord::from_payload(vec![40])));

    assert!(!bucket.is_empty());
    assert_eq!(bucket.len(), 4);
    assert_eq!(bucket.get(1).row_data.get_payload(), &[20]);
    // Four entries of 8 + 1 + 8 bytes each.
    assert_eq!(bucket.size_bytes(), 68);

    let found = bucket.find_matches(hash, &key_refs(&key));
    assert_eq!(found.len(), 2);
    assert_eq!(found[0].row_data.get_payload(), &[10]);
    assert_eq!(found[1].row_data.get_payload(), &[30]);

    let found = bucket.find_matches(hash, &key_refs(&other));
    assert_eq!(found.len(), 1);
    assert_eq!(found[0].row_data.get_payload(), &[20]);

    assert!(bucket.find_matches(hash, &[ValueRef::Integer(3)]).is_empty());
}

#[test]
fn insert_accounts_for_every_entry() {
    let config = HashTableConfig { initial_buckets: 4, mem_budget: 1000, num_keys: 1 };
    let mut ht = HashTable::new(config, ());
    let done = ht.insert(vec![Value::Integer(1)], ImmutableRecord::from_payload(vec![0; 10]));
    assert!(matches!(done, Ok(IOResult::Done(()))));
    assert!(!ht.is_empty());
    // 8 for the key, 10 for the row, 8 for the hash.
    assert_eq!(ht.stats().mem_used, 26);
    assert_eq!(ht.stats().num_entries, 1);
    ht.insert(vec![Value::Text(b"abc".to_vec())], ImmutableRecord::from_payload(vec![0; 5]))
        .unwrap();
    assert_eq!(ht.stats().mem_used, 26 + 16);
    assert_eq!(ht.stats().num_entries, 2);
    assert_eq!(ht.stats().num_buckets, 4);
}

#[test]
fn insert_over_budget_is_refused_and_changes_nothing() {
    let config = HashTableConfig { initial_buckets: 4, mem_budget: 60, num_keys: 1 };
    let mut ht = HashTable::new(config, ());
    // Each entry weighs 8 + 10 + 8 = 26 bytes: two fit, the third does not.
    for i in 0..2 {
        ht.insert(vec![Value::Integer(i)], ImmutableRecord::from_payload(vec![0; 10])).unwrap();
    }
    let refused = ht.insert(vec![Value::Integer(2)], ImmutableRecord::from_payload(vec![0; 10]));
    match refused {
        Err(LimboError::InternalError(text)) => assert_eq!(
            text,
            "Hash table memory budget exceeded. Grace hash join not yet implemented."
        ),
        Ok(_) => panic!("the insert should have been refused"),
    }
    let stats = ht.stats();
    assert_eq!(stats.num_entries, 2);
    assert_eq!(stats.mem_used, 52);
    assert_eq!(stats.mem_budget, 60);
    assert!(!stats.spilled);
    assert_eq!(ht.state(), HashTableState::Building);

    // An entry that still fits is taken: 8 bytes exactly.
    ht.insert(Vec::new(), ImmutableRecord::from_payload(Vec::new())).unwrap();
    assert_eq!(ht.stats().mem_used, 60);
    assert_eq!(ht.stats().num_entries, 3);
    // And now nothing fits any more.
    assert!(ht.insert(Vec::new(), ImmutableRecord::from_payload(Vec::new())).is_err());
    assert_eq!(ht.stats().mem_used, 60);
    assert_eq!(ht.stats().num_entries, 3);

    // The refused key was not stored.
    ht.finalize_build();
    assert!(ht.probe(vec![Value::Integer(2)]).is_none());
    assert!(ht.probe(vec![Value::Integer(1)]).is_some());
}

#[test]
fn budget_error_has_its_message() {
    let error = LimboError::budget_exceeded();
    assert_eq!(
        error.message(),
        "Hash table memory budget exceeded. Grace hash join not yet implemented."
    );
}

#[test]
fn probe_returns_the_stored_entry() {
    let config = HashTableConfig { initial_buckets: 4, mem_budget: 1024, num_keys: 2 };
    let mut ht = HashTable::new(config, ());
    let key = vec![Value::Integer(7), Value::Text(b"x".to_vec())];
    ht.insert(key.clone(), ImmutableRecord::from_payload(vec![1, 2, 3])).unwrap();
    ht.finalize_build();
    assert_eq!(ht.state(), HashTableState::Probing);
    let expected_hash = hash_join_key(&key_refs(&key));
    let found = ht.probe(key).unwrap();
    assert_eq!(found.hash, expected_hash);
    assert_eq!(found.key_values.len(), 2);
    assert_eq!(integer_of(&found.key_values[0]), 7);
    assert_eq!(found.row_data.get_payload(), &[1, 2, 3]);
    // The same values in another order are another key.
    assert!(ht.probe(vec![Value::Text(b"x".to_vec()), Value::Integer(7)]).is_none());
}

#[test]
fn duplicates_come_out_in_insertion_order_then_exhaustion() {
    let config = HashTableConfig { initial_buckets: 1, mem_budget: 4096, num_keys: 1 };
    let mut ht = HashTable::new(config, ());
    // One bucket: every key collides. Interleave another key.
    for i in 0..5u8 {
        ht.insert(vec![Value::Integer(42)], ImmutableRecord::from_payload(vec![i])).unwrap();
        ht.insert(vec![Value::Integer(43)], ImmutableRecord::from_payload(vec![100 + i])).unwrap();
    }
    ht.finalize_build();

    assert_eq!(ht.probe(vec![Value::Integer(42)]).unwrap().row_data.get_payload(), &[0]);
    for i in 1..5u8 {
        assert_eq!(ht.next_match().unwrap().row_data.get_payload(), &[i]);
    }
    assert!(ht.next_match().is_none());
    assert!(ht.next_match().is_none());

    // A new probe discards the cursor of the old one.
    assert_eq!(ht.probe(vec![Value::Integer(43)]).unwrap().row_data.get_payload(), &[100]);
    assert_eq!(ht.next_match().unwrap().row_data.get_payload(), &[101]);
    assert_eq!(ht.probe(vec![Value::Integer(42)]).unwrap().row_data.get_payload(), &[0]);
    assert_eq!(ht.next_match().unwrap().row_data.get_payload(), &[1]);
}

#[test]
fn next_match_without_a_probe_finds_nothing() {
    let config = HashTableConfig { initial_buckets: 2, mem_budget: 4096, num_keys: 1 };
    let mut ht = HashTable::new(config, ());
    ht.insert(vec![Value::Integer(1)], ImmutableRecord::from_payload(vec![1])).unwrap();
    ht.finalize_build();
    assert!(ht.next_match().is_none());
}

#[test]
fn probe_of_an_absent_key_finds_nothing_and_changes_nothing() {
    let config = HashTableConfig { initial_buckets: 4, mem_budget: 4096, num_keys: 1 };
    let mut ht = HashTable::new(config, ());
    for i in 0..6 {
        ht.insert(vec![Value::Integer(i)], ImmutableRecord::from_payload(vec![0; 3])).unwrap();
    }
    ht.finalize_build();
    let before = ht.stats();
    assert!(ht.probe(vec![Value::Integer(999)]).is_none());
    assert!(ht.next_match().is_none());
    assert!(ht.probe(vec![Value::Null]).is_none());
    assert!(ht.probe(Vec::new()).is_none());
    let after = ht.stats();
    assert_eq!(after.num_buckets, before.num_buckets);
    assert_eq!(after.num_entries, before.num_entries);
    assert_eq!(after.mem_used, before.mem_used);
    assert_eq!(after.max_chain_length, before.max_chain_length);
    assert_eq!(after.num_empty_buckets, before.num_empty_buckets);
    assert_eq!(ht.state(), HashTableState::Probing);
    for i in 0..6 {
        assert!(ht.probe(vec![Value::Integer(i)]).is_some());
    }
}

#[test]
fn a_key_with_a_nan_is_stored_and_never_found() {
    let config = HashTableConfig { initial_buckets: 4, mem_budget: 4096, num_keys: 1 };
    let mut ht = HashTable::new(config, ());
    let nan = f64::NAN.to_bits();
    ht.insert(vec![Value::Float(nan)], ImmutableRecord::from_payload(vec![1])).unwrap();
    ht.insert(vec![Value::Float(1.5f64.to_bits())], ImmutableRecord::from_payload(vec![2])).unwrap();
    ht.finalize_build();
    assert_eq!(ht.stats().num_entries, 2);
    assert!(ht.probe(vec![Value::Float(nan)]).is_none());
    assert!(ht.probe(vec![Value::Float(1.5f64.to_bits())]).is_some());
}

#[test]
fn null_keys_match_each_other() {
    let config = HashTableConfig { initial_buckets: 4, mem_budget: 4096, num_keys: 1 };
    let mut ht = HashTable::new(config, ());
    ht.insert(vec![Value::Null], ImmutableRecord::from_payload(vec![1])).unwrap();
    ht.finalize_build();
    assert_eq!(ht.probe(vec![Value::Null]).unwrap().row_data.get_payload(), &[1]);
}

#[test]
fn the_state_tells_which_operations_are_allowed() {
    let config = HashTableConfig { initial_buckets: 4, mem_budget: 4096, num_keys: 1 };
    let mut ht = HashTable::new(config, ());
    // Before the build is finalized the table cannot be probed.
    assert_eq!(ht.state(), HashTableState::Building);
    assert_ne!(ht.state(), HashTableState::Probing);
    ht.finalize_build();
    // After it no row can be inserted.
    assert_eq!(ht.state(), HashTableState::Probing);
    assert_ne!(ht.state(), HashTableState::Building);
    ht.close();
    assert_eq!(ht.state(), HashTableState::Closed);
}

#[test]
fn close_is_idempotent_and_leaves_nothing() {
    let config = HashTableConfig { initial_buckets: 4, mem_budget: 4096, num_keys: 1 };
    let mut ht = HashTable::new(config, ());
    for i in 0..3 {
        ht.insert(vec![Value::Integer(i)], ImmutableRecord::from_payload(vec![0; 3])).unwrap();
    }
    ht.finalize_build();
    ht.close();
    assert_eq!(ht.state(), HashTableState::Closed);
    assert!(ht.is_empty());
    let once = ht.stats();
    assert_eq!(once.num_buckets, 0);
    assert_eq!(once.num_entries, 0);
    assert_eq!(once.mem_used, 0);
    assert_eq!(once.mem_budget, 4096);
    assert_eq!(once.max_chain_length, 0);
    assert_eq!(once.num_empty_buckets, 0);

    ht.close();
    assert_eq!(ht.state(), HashTableState::Closed);
    assert!(ht.is_empty());
    let twice = ht.stats();
    assert_eq!(twice.num_buckets, 0);
    assert_eq!(twice.num_entries, 0);
    assert_eq!(twice.mem_used, 0);
}

#[test]
fn close_is_allowed_while_building() {
    let config = HashTableConfig { initial_buckets: 2, mem_budget: 4096, num_keys: 1 };
    let mut ht = HashTable::new(config, ());
    ht.insert(vec![Value::Integer(1)], ImmutableRecord::from_payload(vec![1])).unwrap();
    ht.close();
    assert_eq!(ht.state(), HashTableState::Closed);
    assert!(ht.is_empty());
}

#[test]
fn stats_count_chains() {
    let config = HashTableConfig { initial_buckets: 4, mem_budget: 4096, num_keys: 1 };
    let mut ht = HashTable::new(config, ());
    // Three entries under one key go to one bucket; one more key is added.
    let key = vec![Value::Integer(5)];
    let other = vec![Value::Integer(6)];
    let same_bucket = hash_join_key(&key_refs(&key)) % 4 == hash_join_key(&key_refs(&other)) % 4;
    for i in 0..3u8 {
        ht.insert(key.clone(), ImmutableRecord::from_payload(vec![i])).unwrap();
    }
    ht.insert(other, ImmutableRecord::from_payload(vec![9])).unwrap();
    let stats = ht.stats();
    assert_eq!(stats.num_buckets, 4);
    assert_eq!(stats.num_entries, 4);
    assert_eq!(stats.mem_used, 4 * 17);
    if same_bucket {
        assert_eq!(stats.max_chain_length, 4);
        assert_eq!(stats.num_empty_buckets, 3);
    } else {
        assert_eq!(stats.max_chain_length, 3);
        assert_eq!(stats.num_empty_buckets, 2);
    }
}

#[test]
fn more_entries_than_buckets_make_a_chain() {
    let config = HashTableConfig { initial_buckets: 3, mem_budget: 4096, num_keys: 1 };
    let mut ht = HashTable::new(config, ());
    for i in 0..4 {
        ht.insert(vec![Value::Integer(i)], ImmutableRecord::from_payload(Vec::new())).unwrap();
    }
    assert!(ht.stats().max_chain_length >= 2);
}
