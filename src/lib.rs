//! Fibonacci numbers for indices up to `u128::MAX`, computed by fast doubling
//! over arbitrary-precision unsigned integers.

pub mod bigint;
pub mod fib_math;
pub mod fast_doubling;

pub use fast_doubling::fibonacci_fast_doubling_iterative;
