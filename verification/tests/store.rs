use keyed_store::store::Entry;
use keyed_store::store::Store;
use keyed_store::store::StoreError;

fn entry(key: u64, value: u64) -> Entry {
    Entry { key, value }
}

#[test]
fn create_seeds_keys_and_values() {
    let s = Store::create(3);
    assert_eq!(s.snapshot(), vec![entry(0, 1), entry(1, 2), entry(2, 3)]);
}

#[test]
fn create_empty() {
    let s = Store::create(0);
    assert_eq!(s.snapshot(), vec![]);
}

#[test]
fn append_assigns_increasing_keys() {
    let mut s = Store::create(3);
    let k1 = s.append(9);
    assert_eq!(k1, 3);
    let k2 = s.append(5);
    assert_eq!(k2, 4);
    assert_eq!(
        s.snapshot(),
        vec![entry(0, 1), entry(1, 2), entry(2, 3), entry(3, 9), entry(4, 5)]
    );
}

#[test]
fn append_onto_empty_starts_at_zero() {
    let mut s = Store::create(0);
    assert_eq!(s.append(7), 0);
    assert_eq!(s.snapshot(), vec![entry(0, 7)]);
}

#[test]
fn increment_targets_exactly_one_entry() {
    let mut s = Store::create(2);
    assert_eq!(s.increment(0), Ok(()));
    assert_eq!(s.snapshot(), vec![entry(0, 2), entry(1, 2)]);
}

#[test]
fn increment_missing_key_is_not_found() {
    let mut s = Store::create(2);
    assert_eq!(s.increment(5), Err(StoreError::NotFound));
    assert_eq!(s.snapshot(), vec![entry(0, 1), entry(1, 2)]);
}

#[test]
fn remove_preserves_order_of_the_rest() {
    let mut s = Store::create(0);
    s.append(10);
    s.append(20);
    s.append(30);
    s.append(40);
    assert_eq!(s.remove(1), Ok(()));
    assert_eq!(s.snapshot(), vec![entry(0, 10), entry(2, 30), entry(3, 40)]);
}

#[test]
fn remove_nonexistent_key_is_not_found_and_changes_nothing() {
    let mut s = Store::create(2);
    assert_eq!(s.remove(99), Err(StoreError::NotFound));
    assert_eq!(s.snapshot(), vec![entry(0, 1), entry(1, 2)]);
}

#[test]
fn removed_key_is_never_reused() {
    let mut s = Store::create(2);
    assert_eq!(s.remove(1), Ok(()));
    assert_eq!(s.append(7), 2);
    assert_eq!(s.remove(0), Ok(()));
    assert_eq!(s.remove(2), Ok(()));
    assert_eq!(s.append(8), 3);
    assert_eq!(s.snapshot(), vec![entry(3, 8)]);
}

#[test]
fn increment_after_remove_of_same_key_is_not_found() {
    let mut s = Store::create(2);
    assert_eq!(s.remove(1), Ok(()));
    assert_eq!(s.increment(1), Err(StoreError::NotFound));
    assert_eq!(s.snapshot(), vec![entry(0, 1)]);
}

#[test]
fn snapshot_is_idempotent_without_mutation() {
    let s = Store::create(4);
    assert_eq!(s.snapshot(), s.snapshot());
}

#[test]
fn mutation_between_snapshots_changes_only_the_affected_entry() {
    let mut s = Store::create(3);
    let before = s.snapshot();
    assert_eq!(s.increment(1), Ok(()));
    let after = s.snapshot();
    assert_eq!(after.len(), before.len());
    for i in 0..before.len() {
        if before[i].key == 1 {
            assert_eq!(after[i], entry(1, before[i].value + 1));
        } else {
            assert_eq!(after[i], before[i]);
        }
    }
}

#[test]
fn snapshot_does_not_alias_the_store() {
    let mut s = Store::create(2);
    let before = s.snapshot();
    assert_eq!(s.increment(0), Ok(()));
    assert_eq!(s.remove(1), Ok(()));
    assert_eq!(before, vec![entry(0, 1), entry(1, 2)]);
    assert_eq!(s.snapshot(), vec![entry(0, 2)]);
}

#[test]
fn keys_stay_distinct_under_interleaving() {
    let mut s = Store::create(3);
    s.append(5);
    assert_eq!(s.remove(0), Ok(()));
    s.append(6);
    assert_eq!(s.remove(2), Ok(()));
    s.append(7);
    let snap = s.snapshot();
    for i in 0..snap.len() {
        for j in 0..snap.len() {
            if i != j {
                assert_ne!(snap[i].key, snap[j].key);
            }
        }
    }
    assert_eq!(snap, vec![entry(1, 2), entry(3, 5), entry(4, 6), entry(5, 7)]);
}
