use hashbench::benchmark::BenchmarkResult;

#[test]
fn new_result_is_empty_with_average_zero() {
    let result = BenchmarkResult::new();
    assert_eq!(result.average, 0);
    assert!(result.iterations.is_empty());
}

#[test]
fn average_is_sum_over_count_after_one_append() {
    let mut result = BenchmarkResult::new();
    result.add_iteration(7);
    assert_eq!(result.iterations, vec![7]);
    assert_eq!(result.average, 7);
}

#[test]
fn average_rounds_down() {
    let mut result = BenchmarkResult::new();
    result.add_iteration(1);
    result.add_iteration(2);
    assert_eq!(result.average, 1);
    result.add_iteration(4);
    assert_eq!(result.average, 2);
    result.add_iteration(4);
    assert_eq!(result.average, 2);
    result.add_iteration(4);
    assert_eq!(result.average, 3);
    assert_eq!(result.iterations, vec![1, 2, 4, 4, 4]);
}

#[test]
fn average_of_equal_durations_is_that_duration() {
    let mut result = BenchmarkResult::new();
    for _ in 0..3 {
        result.add_iteration(10);
    }
    assert_eq!(result.average, 10);
    assert_eq!(result.iterations, vec![10, 10, 10]);
}

#[test]
fn average_holds_after_every_append() {
    let mut state: u64 = 0x2545_f491_4f6c_dd1d;
    let mut result = BenchmarkResult::new();
    let mut recorded: Vec<u128> = Vec::new();
    for _ in 0..200 {
        state ^= state << 13;
        state ^= state >> 7;
        state ^= state << 17;
        let duration: u128 = (state % 100_000) as u128;
        result.add_iteration(duration);
        recorded.push(duration);
        let sum: u128 = recorded.iter().sum();
        assert_eq!(result.iterations, recorded);
        assert_eq!(result.average, sum / recorded.len() as u128);
    }
}

#[test]
fn average_is_recomputed_not_carried() {
    let mut result = BenchmarkResult::new();
    result.add_iteration(5);
    result.average = 1_000_000;
    result.add_iteration(7);
    assert_eq!(result.average, 6);
}

#[test]
fn zero_durations_are_recorded() {
    let mut result = BenchmarkResult::new();
    result.add_iteration(0);
    result.add_iteration(0);
    assert_eq!(result.average, 0);
    assert_eq!(result.iterations.len(), 2);
}

#[test]
fn large_durations_do_not_overflow() {
    let mut result = BenchmarkResult::new();
    let big: u128 = u128::MAX / 2;
    result.add_iteration(big);
    result.add_iteration(big);
    assert_eq!(result.average, big);
}
