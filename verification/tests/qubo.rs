use qlafoutea::qubo::{Constraints, Error};

fn names(n: usize) -> Vec<String> {
    (0..n).map(|i| format!("n{}", i)).collect()
}

#[test]
fn new_is_zeroed() {
    let m = Constraints::new(3, names(3));
    assert_eq!(m.num_nodes(), 3);
    for x in 0..3 {
        for y in 0..3 {
            assert_eq!(m.at(x, y).unwrap(), 0);
        }
    }
}

#[test]
fn try_new_accepts_square() {
    let m = Constraints::try_new(2, vec![1, 2, 3, 4], names(2));
    assert!(m.is_some());
    let m = m.unwrap();
    assert_eq!(m.num_nodes(), 2);
    assert_eq!(m.at(0, 0).unwrap(), 1);
    assert_eq!(m.at(1, 1).unwrap(), 4);
}

#[test]
fn try_new_rejects_bad_data_len() {
    assert!(Constraints::try_new(2, vec![1, 2, 3], names(2)).is_none());
    assert!(Constraints::try_new(2, vec![1, 2, 3, 4, 5], names(2)).is_none());
    assert!(Constraints::try_new(0, vec![1], names(0)).is_none());
}

#[test]
fn try_new_rejects_bad_names_len() {
    assert!(Constraints::try_new(2, vec![1, 2, 3, 4], names(1)).is_none());
    assert!(Constraints::try_new(2, vec![1, 2, 3, 4], names(3)).is_none());
}

#[test]
fn at_is_symmetric() {
    let m = Constraints::try_new(3, vec![10, 0, 0, 20, 30, 0, 40, 50, 60], names(3)).unwrap();
    for x in 0..3 {
        for y in 0..3 {
            assert_eq!(m.at(x, y).unwrap(), m.at(y, x).unwrap());
        }
    }
    // Both orders read the canonical (lower) half.
    assert_eq!(m.at(0, 1).unwrap(), 20);
    assert_eq!(m.at(1, 0).unwrap(), 20);
}

#[test]
fn at_out_of_bounds_is_an_error() {
    let m = Constraints::new(2, names(2));
    assert_eq!(
        m.at(2, 0),
        Err(Error::IndexOutOfBounds { x: 2, y: 0, num_nodes: 2 })
    );
    assert_eq!(
        m.at(0, 7),
        Err(Error::IndexOutOfBounds { x: 0, y: 7, num_nodes: 2 })
    );
}

#[test]
fn delta_at_accumulates() {
    let mut m = Constraints::new(2, names(2));
    m.delta_at(0, 1, 5).unwrap();
    m.delta_at(1, 0, 2).unwrap();
    m.delta_at(0, 1, -1).unwrap();
    assert_eq!(m.at(0, 1).unwrap(), 6);
    assert_eq!(m.at(1, 0).unwrap(), 6);
    assert_eq!(m.at(0, 0).unwrap(), 0);
}

#[test]
fn delta_at_out_of_bounds_is_an_error() {
    let mut m = Constraints::new(2, names(2));
    assert_eq!(
        m.delta_at(5, 1, 3),
        Err(Error::IndexOutOfBounds { x: 5, y: 1, num_nodes: 2 })
    );
    // The matrix is untouched.
    for x in 0..2 {
        for y in 0..2 {
            assert_eq!(m.at(x, y).unwrap(), 0);
        }
    }
}

#[test]
fn add_variable_preserves_weights() {
    let mut m = Constraints::new(2, vec!["a".to_string(), "b".to_string()]);
    m.delta_at(0, 1, 7).unwrap();
    m.delta_at(1, 1, -3).unwrap();
    let idx = m.add_variable("c".to_string());
    assert_eq!(idx, 2);
    assert_eq!(m.num_nodes(), 3);
    assert_eq!(m.at(0, 1).unwrap(), 7);
    assert_eq!(m.at(1, 1).unwrap(), -3);
    for x in 0..3 {
        assert_eq!(m.at(x, 2).unwrap(), 0);
    }
    assert_eq!(m.names().len(), 3);
    assert_eq!(m.names()[2], "c");
}

#[test]
fn num_constraints_counts_pair_slots() {
    let m = Constraints::new(3, names(3));
    assert_eq!(m.num_constraints(), 4);
    let m = Constraints::new(4, names(4));
    assert_eq!(m.num_constraints(), 8);
}

#[test]
fn check_compilable_subset_accepts_signed_halves() {
    let m = Constraints::try_new(2, vec![-1, 0, 2, 0], names(2)).unwrap();
    assert_eq!(m.check_compilable_subset(), Ok(()));
}

#[test]
fn check_compilable_subset_rejects_positive_diagonal() {
    let m = Constraints::try_new(2, vec![1, 0, 0, 0], names(2)).unwrap();
    assert_eq!(
        m.check_compilable_subset(),
        Err(Error::PositiveValueOnDiagonal)
    );
}

#[test]
fn check_compilable_subset_rejects_negative_off_diagonal() {
    let m = Constraints::try_new(2, vec![0, -4, 0, 0], names(2)).unwrap();
    assert_eq!(
        m.check_compilable_subset(),
        Err(Error::NegativeValueOffDiagonal)
    );
}

#[test]
fn omega_none_without_positive_weights() {
    let m = Constraints::try_new(2, vec![-1, 0, -2, 0], names(2)).unwrap();
    assert_eq!(m.omega(), None);
}

#[test]
fn omega_is_the_median_of_positive_weights() {
    // Positive weights: 5, 1, 9 (odd count): median 5.
    let m = Constraints::try_new(2, vec![5, 1, 9, -2], names(2)).unwrap();
    assert_eq!(m.omega(), Some(5));
    // Positive weights: 1, 4, 9, 10 (even count): mean of 4 and 9.
    let m = Constraints::try_new(2, vec![9, 1, 4, 10], names(2)).unwrap();
    assert_eq!(m.omega(), Some(6));
}

#[test]
fn from_const_lays_rows_out() {
    let m = Constraints::from_const(
        vec![vec![1, 0], vec![-2, 3]],
        vec!["a".to_string(), "b".to_string()],
    );
    assert_eq!(m.num_nodes(), 2);
    assert_eq!(m.at(0, 0).unwrap(), 1);
    // The canonical half is the lower triangle: row 1, column 0.
    assert_eq!(m.at(0, 1).unwrap(), -2);
    assert_eq!(m.at(1, 0).unwrap(), -2);
    assert_eq!(m.at(1, 1).unwrap(), 3);
}

#[test]
fn matrix_renders_row_by_row() {
    let m = Constraints::from_const(
        vec![vec![0, 0], vec![-2, 1]],
        vec!["a".to_string(), "b".to_string()],
    );
    assert_eq!(m.to_string(), "[[0, -2],\n [-2, 1]]");
}
