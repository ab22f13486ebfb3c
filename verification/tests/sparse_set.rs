use mobile_cam::sparse_set::SparseSet;

#[test]
fn insert_then_get_returns_value() {
    let mut s: SparseSet<&str> = SparseSet::with_capacity(4);
    let a = s.insert("a");
    let b = s.insert("b");
    assert_eq!(a, 0);
    assert_eq!(b, 1);
    assert_eq!(s.get(a), Some(&"a"));
    assert_eq!(s.get(b), Some(&"b"));
    assert_eq!(s.get(2), None);
    assert_eq!(s.len(), 2);
}

#[test]
fn remove_returns_value_and_forgets_it() {
    let mut s: SparseSet<u32> = SparseSet::with_capacity(1);
    let a = s.insert(10);
    let b = s.insert(20);
    let c = s.insert(30);
    assert_eq!(s.remove(a), Some(10));
    assert_eq!(s.get(a), None);
    assert_eq!(s.get(b), Some(&20));
    assert_eq!(s.get(c), Some(&30));
    assert_eq!(s.remove(a), None);
    assert_eq!(s.len(), 2);
}

#[test]
fn removing_the_last_dense_slot() {
    let mut s: SparseSet<u32> = SparseSet::with_capacity(0);
    let a = s.insert(1);
    let b = s.insert(2);
    assert_eq!(s.remove(b), Some(2));
    assert_eq!(s.get(a), Some(&1));
    assert_eq!(s.get(b), None);
}

#[test]
fn freed_index_is_reused_most_recent_first() {
    let mut s: SparseSet<char> = SparseSet::with_capacity(0);
    let a = s.insert('a');
    let b = s.insert('b');
    let _c = s.insert('c');
    s.remove(a);
    s.remove(b);
    assert_eq!(s.insert('x'), b);
    assert_eq!(s.insert('y'), a);
    assert_eq!(s.insert('z'), 3);
    assert_eq!(s.get(a), Some(&'y'));
    assert_eq!(s.get(b), Some(&'x'));
}

#[test]
fn remove_out_of_range_is_none() {
    let mut s: SparseSet<u8> = SparseSet::with_capacity(0);
    assert_eq!(s.remove(5), None);
    assert_eq!(s.get(5), None);
    assert_eq!(s.len(), 0);
}

#[test]
fn iteration_is_by_increasing_index() {
    let mut s: SparseSet<u32> = SparseSet::with_capacity(0);
    for v in [10u32, 11, 12, 13] {
        s.insert(v);
    }
    s.remove(1);
    s.remove(0);
    s.insert(99); // takes index 0
    let mut it = s.iter();
    let mut seen = Vec::new();
    while let Some((i, v)) = it.next() {
        seen.push((i, *v));
    }
    assert_eq!(seen, vec![(0, 99), (2, 12), (3, 13)]);
    let pairs: Vec<(usize, u32)> = s.pairs().into_iter().map(|(i, v)| (i, *v)).collect();
    assert_eq!(pairs, seen);
}

#[test]
fn get_mut_changes_the_stored_value() {
    let mut s: SparseSet<u32> = SparseSet::with_capacity(0);
    let a = s.insert(1);
    if let Some(v) = s.get_mut(a) {
        *v = 5;
    }
    assert_eq!(s.get(a), Some(&5));
    assert!(s.get_mut(7).is_none());
}

#[test]
fn freed_indices_are_reused_before_fresh_ones() {
    let mut s: SparseSet<u32> = SparseSet::with_capacity(0);
    let a = s.insert(1);
    let b = s.insert(2);
    let c = s.insert(3);
    assert_eq!(s.remove(a), Some(1));
    assert_eq!(s.remove(c), Some(3));
    // The most recently freed index comes back first, then the older one.
    assert_eq!(s.insert(4), c);
    assert_eq!(s.insert(5), a);
    // Only once no index is free does a fresh one come, right after the last.
    assert_eq!(s.insert(6), 3);
    assert_eq!(s.get(b), Some(&2));
    assert_eq!(s.get(a), Some(&5));
    assert_eq!(s.get(c), Some(&4));
}

#[test]
fn get_reads_the_latest_value_at_an_index() {
    let mut s: SparseSet<&str> = SparseSet::with_capacity(2);
    let a = s.insert("first");
    assert_eq!(s.remove(a), Some("first"));
    assert_eq!(s.get(a), None);
    let again = s.insert("second");
    assert_eq!(again, a);
    assert_eq!(s.get(a), Some(&"second"));
    assert_eq!(s.remove(7), None);
    assert_eq!(s.get(a), Some(&"second"));
}
