//! The Fibonacci kernel: a deliberately naive doubly recursive computation
//! of Fibonacci numbers on 32-bit integers, whose exponential call tree is
//! the benchmark payload.

use vstd::prelude::*;

verus! {

/// The n-th Fibonacci number under the convention F(0) = 0, F(1) = 1,
/// F(n) = F(n-1) + F(n-2) for n >= 2.
pub open spec fn fib(n: nat) -> nat
    decreases n,
{
    if n == 0 {
        0
    } else if n == 1 {
        1
    } else {
        fib((n - 1) as nat) + fib((n - 2) as nat)
    }
}

/// The value the kernel computes on a 32-bit argument: anything at or below
/// 1 comes back unchanged (negative arguments included), and each addition
/// wraps as 32-bit two's-complement addition does.
pub open spec fn fib_kernel(n: i32) -> i32
    decreases n,
{
    if n <= 1 {
        n
    } else {
        vstd::wrapping::i32_specs::wrapping_add(
            fib_kernel((n - 1) as i32),
            fib_kernel((n - 2) as i32),
        )
    }
}

/// Fibonacci numbers never shrink as the index grows.
pub proof fn lemma_fib_monotonic(i: nat, j: nat)
    requires
        i <= j,
    ensures
        fib(i) <= fib(j),
    decreases j,
{
    if j <= 1 || i == j {
    } else {
        lemma_fib_monotonic(i, (j - 1) as nat);
    }
}

/// Wherever the true Fibonacci number fits in an `i32`, no addition in the
/// kernel wraps, so the kernel computes it exactly.
pub proof fn lemma_fib_kernel_matches_fib(n: i32)
    requires
        0 <= n,
        fib(n as nat) <= i32::MAX,
    ensures
        fib_kernel(n) == fib(n as nat),
    decreases n,
{
    if n <= 1 {
    } else {
        lemma_fib_monotonic((n - 1) as nat, n as nat);
        lemma_fib_monotonic((n - 2) as nat, n as nat);
        lemma_fib_kernel_matches_fib((n - 1) as i32);
        lemma_fib_kernel_matches_fib((n - 2) as i32);
    }
}

/// For arguments of 2 or more, as long as the two preceding kernel values
/// sum within the 32-bit range, the kernel satisfies the Fibonacci
/// recurrence with exact (non-wrapping) addition.
pub proof fn lemma_fib_kernel_recurrence(n: i32)
    requires
        2 <= n,
        i32::MIN <= fib_kernel((n - 1) as i32) + fib_kernel((n - 2) as i32) <= i32::MAX,
    ensures
        fib_kernel(n) == fib_kernel((n - 1) as i32) + fib_kernel((n - 2) as i32),
{
}

/// The kernel is a pure function of its argument: any two results obtained
/// for the same input are equal, so repeated calls cannot disagree.
pub proof fn lemma_fibonacci_deterministic(n: i32, r1: i32, r2: i32)
    requires
        r1 == fib_kernel(n),
        r2 == fib_kernel(n),
    ensures
        r1 == r2,
{
}

/// Naive doubly recursive Fibonacci, kept free of memoization on purpose:
/// the exponential call count is the benchmark load. Arguments at or below
/// 1 (negative ones included) come back unchanged, and each addition wraps.
pub fn fibonacci(n: i32) -> (r: i32)
    ensures
        r == fib_kernel(n),
        n <= 1 ==> r == n,
        0 <= n && fib(n as nat) <= i32::MAX ==> r == fib(n as nat),
    decreases n,
{
    proof {
        if 0 <= n && fib(n as nat) <= i32::MAX {
            lemma_fib_kernel_matches_fib(n);
        }
    }
    if n <= 1 {
        n
    } else {
        let x: i32 = fibonacci(n - 1);
        let y: i32 = fibonacci(n - 2);
        x.wrapping_add(y)
    }
}

} // verus!
