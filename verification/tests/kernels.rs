use bench_kernels::fib::fibonacci;
use bench_kernels::matrix::{matrix_multiply, matrix_multiply_counted, try_matrix_multiply};

#[test]
fn fibonacci_base_cases() {
    assert_eq!(fibonacci(0), 0);
    assert_eq!(fibonacci(1), 1);
}

#[test]
fn fibonacci_known_values() {
    assert_eq!(fibonacci(2), 1);
    assert_eq!(fibonacci(3), 2);
    assert_eq!(fibonacci(10), 55);
    assert_eq!(fibonacci(20), 6765);
}

#[test]
fn fibonacci_negative_input_returned_unchanged() {
    assert_eq!(fibonacci(-1), -1);
    assert_eq!(fibonacci(-7), -7);
}

#[test]
fn fibonacci_satisfies_recurrence() {
    for n in 2..15 {
        assert_eq!(fibonacci(n), fibonacci(n - 1) + fibonacci(n - 2));
    }
}

#[test]
fn fibonacci_repeated_calls_agree() {
    let first = fibonacci(15);
    let second = fibonacci(15);
    assert_eq!(first, second);
    assert_eq!(first, 610);
}

#[test]
fn matrix_multiply_zero_size_completes() {
    matrix_multiply(0);
    let (product, count) = matrix_multiply_counted(0);
    assert!(product.is_empty());
    assert_eq!(count, 0);
}

#[test]
fn matrix_multiply_size_two_product() {
    let (product, count) = matrix_multiply_counted(2);
    assert_eq!(product, vec![vec![2, 2], vec![2, 2]]);
    assert_eq!(count, 8);
}

#[test]
fn matrix_multiply_cell_values_equal_size() {
    let size = 5;
    let (product, _) = matrix_multiply_counted(size);
    assert_eq!(product.len(), size as usize);
    for row in &product {
        assert_eq!(row.len(), size as usize);
        for &cell in row {
            assert_eq!(cell, size);
        }
    }
}

#[test]
fn matrix_multiply_counts_cubic_work() {
    assert_eq!(matrix_multiply_counted(0).1, 0);
    assert_eq!(matrix_multiply_counted(1).1, 1);
    assert_eq!(matrix_multiply_counted(3).1, 27);
    assert_eq!(matrix_multiply_counted(10).1, 1000);
}

#[test]
fn matrix_multiply_repeated_calls_agree() {
    let (first, first_count) = matrix_multiply_counted(4);
    let (second, second_count) = matrix_multiply_counted(4);
    assert_eq!(first, second);
    assert_eq!(first_count, second_count);
}

#[test]
fn matrix_multiply_runs_also_for_plain_entry() {
    matrix_multiply(3);
    matrix_multiply(3);
}

#[test]
fn try_matrix_multiply_rejects_negative_size() {
    assert!(!try_matrix_multiply(-1));
    assert!(!try_matrix_multiply(i32::MIN));
    assert!(try_matrix_multiply(0));
    assert!(try_matrix_multiply(2));
}
