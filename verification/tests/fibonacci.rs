use enclave_demos::fibonacci::{fibonacci_seq, FibonacciError, FIBONACCI_LEN_LIMIT};

#[test]
fn fibonacci_empty_sequence() {
    assert_eq!(fibonacci_seq(0), Ok(vec![]));
}

#[test]
fn fibonacci_short_sequences() {
    assert_eq!(fibonacci_seq(1), Ok(vec![1]));
    assert_eq!(fibonacci_seq(2), Ok(vec![1, 1]));
    assert_eq!(fibonacci_seq(3), Ok(vec![1, 1, 2]));
}

#[test]
fn fibonacci_ten_terms() {
    assert_eq!(fibonacci_seq(10), Ok(vec![1, 1, 2, 3, 5, 8, 13, 21, 34, 55]));
}

#[test]
fn fibonacci_longest_sequence_fits() {
    let v = fibonacci_seq(47).unwrap();
    assert_eq!(v.len(), 47);
    assert_eq!(v[45], 1836311903);
    assert_eq!(v[46], 2971215073);
}

#[test]
fn fibonacci_overflow_is_refused() {
    assert_eq!(FIBONACCI_LEN_LIMIT, 48);
    assert_eq!(fibonacci_seq(48), Err(FibonacciError::Overflow));
    assert_eq!(fibonacci_seq(49), Err(FibonacciError::Overflow));
    assert_eq!(fibonacci_seq(usize::MAX), Err(FibonacciError::Overflow));
}

#[test]
fn fibonacci_recurrence_holds() {
    let v = fibonacci_seq(40).unwrap();
    for i in 2..v.len() {
        assert_eq!(v[i], v[i - 1] + v[i - 2]);
    }
}

#[test]
fn fibonacci_next_term_would_overflow() {
    let v = fibonacci_seq(47).unwrap();
    assert!((v[46] as u64) + (v[45] as u64) > u32::MAX as u64);
}
