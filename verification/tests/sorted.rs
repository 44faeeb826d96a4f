use makita::sorted::{contains_id, insert_id, remove_id, sort_ids, upper_bound};

#[test]
fn upper_bound_is_behind_the_last_not_above() {
    let v = vec![1, 3, 3, 7];
    assert_eq!(upper_bound(&v, 0), 0);
    assert_eq!(upper_bound(&v, 1), 1);
    assert_eq!(upper_bound(&v, 3), 3);
    assert_eq!(upper_bound(&v, 5), 3);
    assert_eq!(upper_bound(&v, 7), 4);
    assert_eq!(upper_bound(&v, 9), 4);
    assert_eq!(upper_bound(&Vec::new(), 9), 0);
}

#[test]
fn insert_keeps_order() {
    let mut v: Vec<u64> = Vec::new();
    for x in [5, 1, 9, 5, 3] {
        insert_id(&mut v, x);
    }
    assert_eq!(v, vec![1, 3, 5, 5, 9]);
}

#[test]
fn remove_takes_one_occurrence() {
    let mut v = vec![1, 3, 5, 5, 9];
    assert!(remove_id(&mut v, 5));
    assert_eq!(v, vec![1, 3, 5, 9]);
    assert!(remove_id(&mut v, 5));
    assert_eq!(v, vec![1, 3, 9]);
    assert!(!remove_id(&mut v, 5));
    assert_eq!(v, vec![1, 3, 9]);
    assert!(remove_id(&mut v, 1));
    assert!(remove_id(&mut v, 9));
    assert_eq!(v, vec![3]);
}

#[test]
fn contains_by_bisection() {
    let v = vec![2, 4, 6, 8];
    for x in 0..10u64 {
        assert_eq!(contains_id(&v, x), x >= 2 && x <= 8 && x % 2 == 0);
    }
}

#[test]
fn sorting_agrees_with_std() {
    let v = vec![9, 1, 8, 1, 0, u64::MAX, 3];
    let mut expected = v.clone();
    expected.sort();
    assert_eq!(sort_ids(&v), expected);
    assert_eq!(sort_ids(&Vec::new()), Vec::<u64>::new());
}

#[test]
fn sorting_a_sorted_list_changes_nothing() {
    let v = vec![1, 2, 2, 3, 10];
    assert_eq!(sort_ids(&v), v);
}
