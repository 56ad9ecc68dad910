use longinus::f::partition;

#[test]
fn partition_splits_by_predicate_in_order() {
    let (odd, even) = partition(vec![1, 2, 3, 4, 5, 6], |n: &i32| n % 2 == 0);
    assert_eq!(odd, vec![1, 3, 5]);
    assert_eq!(even, vec![2, 4, 6]);
}

#[test]
fn partition_of_nothing_is_two_empty_lists() {
    let (a, b) = partition(Vec::<i32>::new(), |_: &i32| true);
    assert!(a.is_empty());
    assert!(b.is_empty());
}

#[test]
fn partition_with_constant_predicate() {
    let (a, b) = partition(vec!["x", "y"], |_: &&str| true);
    assert!(a.is_empty());
    assert_eq!(b, vec!["x", "y"]);
}
