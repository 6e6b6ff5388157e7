use kitties::index::OwnedIndex;

#[test]
fn an_account_without_entry_owns_nothing() {
    let index = OwnedIndex::new();
    assert_eq!(index.get(&1), Vec::<u32>::new());
    assert_eq!(index.position(&1, 0), None);
}

#[test]
fn push_appends_to_the_account_alone() {
    let mut index = OwnedIndex::new();
    index.push(&1, 7);
    index.push(&2, 8);
    index.push(&1, 9);
    assert_eq!(index.get(&1), [7, 9]);
    assert_eq!(index.get(&2), [8]);
    assert_eq!(index.get(&3), Vec::<u32>::new());
}

#[test]
fn position_is_the_first_place() {
    let mut index = OwnedIndex::new();
    index.put(&4, vec![5, 6, 5, 7]);
    assert_eq!(index.position(&4, 5), Some(0));
    assert_eq!(index.position(&4, 6), Some(1));
    assert_eq!(index.position(&4, 7), Some(3));
    assert_eq!(index.position(&4, 8), None);
    assert_eq!(index.position(&5, 5), None);
}

#[test]
fn swap_remove_fills_the_gap_with_the_last_entry() {
    let mut index = OwnedIndex::new();
    index.put(&1, vec![10, 11, 12, 13]);
    index.put(&2, vec![20]);
    index.swap_remove(&1, 1);
    assert_eq!(index.get(&1), [10, 13, 12]);
    index.swap_remove(&1, 2);
    assert_eq!(index.get(&1), [10, 13]);
    index.swap_remove(&1, 0);
    assert_eq!(index.get(&1), [13]);
    index.swap_remove(&1, 0);
    assert_eq!(index.get(&1), Vec::<u32>::new());
    assert_eq!(index.get(&2), [20]);
}

#[test]
fn put_replaces_the_list() {
    let mut index = OwnedIndex::new();
    index.put(&1, vec![1, 2]);
    index.put(&1, vec![3]);
    assert_eq!(index.get(&1), [3]);
    index.put(&1, vec![]);
    assert_eq!(index.get(&1), Vec::<u32>::new());
    index.push(&1, 4);
    assert_eq!(index.get(&1), [4]);
}
