use balancebeam::warmup::{add_n, add_n_inplace, dedup};

#[test]
fn test_add_n() {
    assert_eq!(add_n(vec![1], 2), vec![3]);
}

#[test]
fn test_add_n_inplace() {
    let mut v = vec![1];
    add_n_inplace(&mut v, 2);
    assert_eq!(v, vec![3]);
}

#[test]
fn test_dedup() {
    let mut v = vec![3, 1, 0, 1, 4, 4];
    dedup(&mut v);
    assert_eq!(v, vec![3, 1, 0, 4]);
}

#[test]
fn add_n_keeps_order_and_length() {
    assert_eq!(add_n(vec![5, -3, 0, 7], -2), vec![3, -5, -2, 5]);
    assert_eq!(add_n(Vec::new(), 9), Vec::<i32>::new());
}

#[test]
fn add_n_inplace_reaches_the_limits() {
    let mut v = vec![i32::MAX - 1, i32::MIN];
    add_n_inplace(&mut v, 1);
    assert_eq!(v, vec![i32::MAX, i32::MIN + 1]);
}

#[test]
fn dedup_of_nothing_and_of_one_value() {
    let mut empty: Vec<i32> = Vec::new();
    dedup(&mut empty);
    assert!(empty.is_empty());
    let mut same = vec![7, 7, 7, 7];
    dedup(&mut same);
    assert_eq!(same, vec![7]);
}

#[test]
fn dedup_keeps_first_occurrences_in_order() {
    let mut v = vec![2, 1, 2, 3, 1, 3, 0];
    dedup(&mut v);
    assert_eq!(v, vec![2, 1, 3, 0]);
    let mut again = v.clone();
    dedup(&mut again);
    assert_eq!(again, v);
}
