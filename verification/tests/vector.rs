use bestmatch::vector::SparseVector;

#[test]
fn new_vector_is_empty() {
    let v: SparseVector<u64> = SparseVector::new();
    assert!(v.is_empty());
    assert_eq!(v.len(), 0);
    assert_eq!(v.get(0), None);
    assert!(v.entries().is_empty());
}

#[test]
fn entries_come_by_ascending_index() {
    let mut v: SparseVector<u64> = SparseVector::new();
    v.insert(7, 70);
    v.insert(0, 1);
    v.insert(u32::MAX, 9);
    v.insert(3, 30);
    assert!(!v.is_empty());
    assert_eq!(v.len(), 4);
    assert_eq!(v.entries(), vec![(0, &1), (3, &30), (7, &70), (u32::MAX, &9)]);
}

#[test]
fn insert_replaces_the_weight_that_was_there() {
    let mut v: SparseVector<String> = SparseVector::new();
    v.insert(2, "0.5".to_string());
    v.insert(2, "0.25".to_string());
    assert_eq!(v.len(), 1);
    assert_eq!(v.get(2), Some(&"0.25".to_string()));
    assert_eq!(v.get(1), None);
    assert_eq!(v.entries(), vec![(2, &"0.25".to_string())]);
}

#[test]
fn with_weights_keeps_the_dimensions() {
    let mut v: SparseVector<u64> = SparseVector::new();
    v.insert(9, 3);
    v.insert(2, 1);
    v.insert(5, 2);
    let w = v.with_weights(vec!["a".to_string(), "b".to_string(), "c".to_string()]).unwrap();
    assert_eq!(
        w.entries(),
        vec![(2, &"a".to_string()), (5, &"b".to_string()), (9, &"c".to_string())]
    );
    // The vector itself is as it was.
    assert_eq!(v.entries(), vec![(2, &1), (5, &2), (9, &3)]);
}

#[test]
fn with_weights_wants_one_weight_for_each_dimension() {
    let mut v: SparseVector<u64> = SparseVector::new();
    v.insert(1, 1);
    v.insert(2, 1);
    assert!(v.with_weights(vec![0u8]).is_none());
    assert!(v.with_weights(vec![0u8, 1, 2]).is_none());
    assert!(v.with_weights(Vec::<u8>::new()).is_none());
    assert!(v.with_weights(vec![0u8, 1]).is_some());

    let empty: SparseVector<u64> = SparseVector::new();
    assert!(empty.with_weights(Vec::<u8>::new()).unwrap().is_empty());
    assert!(empty.with_weights(vec![0u8]).is_none());
}
