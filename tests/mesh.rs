use softrast::mesh::{check_indices, index_triples};

#[test]
fn flat_indices_group_in_threes() {
    let t = index_triples(&[0, 1, 2, 2, 3, 0, 7]);
    assert_eq!(t, vec![[0, 1, 2], [2, 3, 0]]);
    assert!(index_triples(&[]).is_empty());
}

#[test]
fn index_validation() {
    assert!(check_indices(&[[0, 1, 2], [2, 3, 0]], 4));
    assert!(!check_indices(&[[0, 1, 2], [2, 4, 0]], 4));
    assert!(check_indices(&[], 0));
}
