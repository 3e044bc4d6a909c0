use balancebeam::parallel_map::place_results;

#[test]
fn results_are_put_in_the_order_of_their_inputs() {
    let v: Vec<u64> = vec![6, 7, 8, 9, 10, 1, 2, 3, 4, 5, 12, 18, 11, 5, 20];
    // the results come back in some other order
    let mut results: Vec<(usize, u64)> = v.iter().enumerate().map(|(i, n)| (i, n * n)).collect();
    results.reverse();
    results.swap(2, 9);
    results.swap(0, 5);
    let squares = place_results(v.len(), results);
    assert_eq!(squares, vec![36, 49, 64, 81, 100, 1, 4, 9, 16, 25, 144, 324, 121, 25, 400]);
}

#[test]
fn a_position_without_a_result_holds_the_default() {
    let out = place_results(4, vec![(2, String::from("two")), (0, String::from("zero"))]);
    assert_eq!(out, vec!["zero", "", "two", ""]);
    let none: Vec<i32> = place_results(3, Vec::new());
    assert_eq!(none, vec![0, 0, 0]);
    let empty: Vec<i32> = place_results(0, Vec::new());
    assert!(empty.is_empty());
}

#[test]
fn the_last_of_two_results_for_one_position_stays() {
    let out = place_results(2, vec![(1, 'a'), (0, 'b'), (1, 'c')]);
    assert_eq!(out, vec!['b', 'c']);
}
