use radix_engine::memory::InMemorySubstateStore;

#[test]
fn a_new_store_is_empty() {
    let store = InMemorySubstateStore::new();
    assert_eq!(store.get_substate(&[1, 2, 3]), None);
    assert_eq!(store.get_child_substate(&[1], &[2]), None);
    assert_eq!(store.get_epoch(), 0);
    assert_eq!(store.get_nonce(), 0);
    let default_store = InMemorySubstateStore::default();
    assert_eq!(default_store.get_epoch(), 0);
}

#[test]
fn get_gives_back_the_last_put() {
    let mut store = InMemorySubstateStore::new();
    store.put_substate(&[1, 2], &[10]);
    store.put_substate(&[3], &[30, 31]);
    assert_eq!(store.get_substate(&[1, 2]), Some(vec![10]));
    store.put_substate(&[1, 2], &[11, 12]);
    assert_eq!(store.get_substate(&[1, 2]), Some(vec![11, 12]));
    assert_eq!(store.get_substate(&[3]), Some(vec![30, 31]));
    assert_eq!(store.get_substate(&[1]), None);
    // Substates and child substates are kept apart.
    assert_eq!(store.get_child_substate(&[1], &[2]), None);
}

#[test]
fn child_substates_are_keyed_by_address_then_key() {
    let mut store = InMemorySubstateStore::new();
    store.put_child_substate(&[1, 2], &[3], &[7]);
    assert_eq!(store.get_child_substate(&[1, 2], &[3]), Some(vec![7]));
    assert_eq!(store.get_child_substate(&[1, 2], &[4]), None);
    // The key is the address followed by the child's key.
    assert_eq!(store.get_child_substate(&[1], &[2, 3]), Some(vec![7]));
    store.put_child_substate(&[1, 2], &[4], &[8]);
    assert_eq!(store.get_child_substate(&[1, 2], &[3]), Some(vec![7]));
    assert_eq!(store.get_child_substate(&[1, 2], &[4]), Some(vec![8]));
}

#[test]
fn epoch_and_nonce() {
    let mut store = InMemorySubstateStore::new();
    store.set_epoch(5);
    assert_eq!(store.get_epoch(), 5);
    store.increase_nonce();
    store.increase_nonce();
    assert_eq!(store.get_nonce(), 2);
    assert_eq!(store.get_epoch(), 5);
}

#[test]
fn a_bootstrapped_store_holds_the_genesis_substates() {
    let genesis = vec![(vec![1u8], vec![10u8]), (vec![2u8], vec![20u8]), (vec![1u8], vec![11u8])];
    let store = InMemorySubstateStore::with_bootstrap(&genesis);
    assert_eq!(store.get_substate(&[1]), Some(vec![11]));
    assert_eq!(store.get_substate(&[2]), Some(vec![20]));
    assert_eq!(store.get_substate(&[3]), None);
    assert_eq!(store.get_child_substate(&[1], &[]), None);
    assert_eq!(store.get_epoch(), 0);
    assert_eq!(store.get_nonce(), 0);
}
