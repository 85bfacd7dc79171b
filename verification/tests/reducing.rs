use taskcoord::CoordError;
use taskcoord::ReduceOutcome;
use taskcoord::parallel_reduce;

#[test]
fn reduce_sums_squares_of_1_to_20_with_4_workers() {
    let input: Vec<u64> = (1..=20).collect();
    let outcome = parallel_reduce(input, 4).unwrap();
    assert_eq!(outcome, ReduceOutcome { processed: 20, total: 2870 });
}

#[test]
fn reduce_value_does_not_depend_on_worker_count() {
    let input: Vec<u64> = (1..=20).collect();
    for k in [1, 2, 3, 4, 5, 7, 13, 20] {
        let outcome = parallel_reduce(input.clone(), k).unwrap();
        assert_eq!(outcome.total, 2870);
        assert_eq!(outcome.processed, 20);
    }
}

#[test]
fn reduce_value_is_stable_across_repeated_runs() {
    let input: Vec<u64> = (0..50).collect();
    let expected = parallel_reduce(input.clone(), 6).unwrap();
    for _ in 0..10 {
        assert_eq!(parallel_reduce(input.clone(), 6).unwrap(), expected);
    }
}

#[test]
fn reduce_zero_workers_is_a_config_error() {
    let input: Vec<u64> = (1..=5).collect();
    assert_eq!(parallel_reduce(input, 0), Err(CoordError::ConfigError));
    // The check comes before anything else: even trivial inputs are refused.
    assert_eq!(parallel_reduce(Vec::new(), 0), Err(CoordError::ConfigError));
}

#[test]
fn reduce_empty_input() {
    let outcome = parallel_reduce(Vec::new(), 3).unwrap();
    assert_eq!(outcome, ReduceOutcome { processed: 0, total: 0 });
}

#[test]
fn reduce_more_workers_than_items() {
    let outcome = parallel_reduce(vec![1, 2, 3], 10).unwrap();
    assert_eq!(outcome, ReduceOutcome { processed: 3, total: 14 });
}

#[test]
fn reduce_single_item() {
    let outcome = parallel_reduce(vec![9], 1).unwrap();
    assert_eq!(outcome, ReduceOutcome { processed: 1, total: 81 });
}
