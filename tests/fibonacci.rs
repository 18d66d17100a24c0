use fib_rs::fibonacci_fast_doubling_iterative;
use num_bigint::BigUint;

fn by_addition(count: usize) -> Vec<BigUint> {
    let mut seq: Vec<BigUint> = vec![BigUint::from(0u32), BigUint::from(1u32)];
    while seq.len() < count {
        let next = &seq[seq.len() - 1] + &seq[seq.len() - 2];
        seq.push(next);
    }
    seq.truncate(count);
    seq
}

#[test]
fn base_cases() {
    let expected: [(u128, u32); 7] = [(0, 0), (1, 1), (2, 1), (3, 2), (4, 3), (5, 5), (10, 55)];
    for (n, value) in expected {
        assert_eq!(fibonacci_fast_doubling_iterative(n), BigUint::from(value), "F({})", n);
    }
}

#[test]
fn zero_index_gives_zero() {
    assert_eq!(fibonacci_fast_doubling_iterative(0).to_string(), "0");
}

#[test]
fn small_values_exact() {
    assert_eq!(fibonacci_fast_doubling_iterative(6), BigUint::from(8u32));
    assert_eq!(fibonacci_fast_doubling_iterative(7), BigUint::from(13u32));
    assert_eq!(fibonacci_fast_doubling_iterative(20), BigUint::from(6765u32));
    assert_eq!(fibonacci_fast_doubling_iterative(50).to_string(), "12586269025");
}

#[test]
fn recurrence_holds_up_to_one_thousand() {
    for n in 2u128..=1000 {
        let f = fibonacci_fast_doubling_iterative(n);
        let f1 = fibonacci_fast_doubling_iterative(n - 1);
        let f2 = fibonacci_fast_doubling_iterative(n - 2);
        assert_eq!(f, f1 + f2, "F({})", n);
    }
}

#[test]
fn matches_additive_sequence_up_to_one_thousand() {
    let seq = by_addition(1001);
    for n in 0..=1000usize {
        assert_eq!(fibonacci_fast_doubling_iterative(n as u128), seq[n], "F({})", n);
    }
}

#[test]
fn non_decreasing_and_strict_from_two() {
    let mut prev = fibonacci_fast_doubling_iterative(0);
    for n in 1u128..=500 {
        let cur = fibonacci_fast_doubling_iterative(n);
        assert!(prev <= cur, "F({}) <= F({})", n - 1, n);
        if n >= 3 {
            assert!(prev < cur, "F({}) < F({})", n - 1, n);
        }
        prev = cur;
    }
    assert_eq!(fibonacci_fast_doubling_iterative(1), fibonacci_fast_doubling_iterative(2));
}

#[test]
fn digit_count_grows_linearly() {
    let digits = fibonacci_fast_doubling_iterative(100_000).to_string().len();
    assert_eq!(digits, 20899);
    let rate = 0.2090f64;
    for n in [1_000u128, 10_000, 100_000] {
        let len = fibonacci_fast_doubling_iterative(n).to_string().len() as f64;
        let approx = rate * (n as f64);
        assert!((len - approx).abs() < 2.0 + 0.001 * (n as f64), "digits of F({})", n);
    }
}

#[test]
fn index_one_hundred() {
    assert_eq!(
        fibonacci_fast_doubling_iterative(100).to_string(),
        "354224848179261915075"
    );
}

#[test]
fn repeated_calls_agree() {
    for n in [0u128, 1, 2, 77, 100, 1023, 1024, 4097] {
        let first = fibonacci_fast_doubling_iterative(n);
        let second = fibonacci_fast_doubling_iterative(n);
        assert_eq!(first, second);
        assert_eq!(first.to_u32_digits(), second.to_u32_digits());
    }
}

#[test]
fn every_index_below_four_thousand_ninety_six() {
    let seq = by_addition(4096);
    for n in 0..4096usize {
        assert_eq!(fibonacci_fast_doubling_iterative(n as u128), seq[n], "F({})", n);
    }
}

#[test]
fn bit_width_edges_up_to_sixteen_bits() {
    let seq = by_addition(65537);
    for k in 0..=16u32 {
        let p: usize = 1usize << k;
        for n in [p - 1, p, p + 1] {
            if n < seq.len() {
                assert_eq!(fibonacci_fast_doubling_iterative(n as u128), seq[n], "F({})", n);
            }
        }
    }
    assert_eq!(fibonacci_fast_doubling_iterative(65535), seq[65535]);
}
