use canvas_demos::knn::majority_is_one;

#[test]
fn vote_among_the_nearest() {
    assert!(majority_is_one(&vec!['1', '1', '2', '2'], 3));
    assert!(!majority_is_one(&vec!['2', '1', '2', '1'], 3));
    assert!(!majority_is_one(&vec!['1', '2', '1', '2'], 2));
    assert!(majority_is_one(&vec!['1', '2', '1', '2'], 1));
    assert!(!majority_is_one(&vec!['1', '2', '1', '2'], 0));
    assert!(!majority_is_one(&vec![], 3));
    // With fewer neighbours than asked for, all of them vote.
    assert!(majority_is_one(&vec!['1', '7', '1'], 10));
    assert!(!majority_is_one(&vec!['1', '7', '3'], usize::MAX));
    assert!(!majority_is_one(&vec!['1', '7'], 5));
}
