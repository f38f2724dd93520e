//! Two small, pure computational kernels used as timing probes: a naive
//! doubly recursive Fibonacci and a naive cubic all-ones matrix multiply.
//! Both are intentionally unoptimized; the work they perform is the point.

pub mod fib;
pub mod matrix;

pub use fib::fibonacci;
pub use matrix::matrix_multiply;
