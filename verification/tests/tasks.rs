use taskcoord::CoordError;
use taskcoord::SharedCell;
use taskcoord::join;
use taskcoord::join_all;
use taskcoord::spawn;
use taskcoord::spawn_n;

#[test]
fn spawn_and_join_moved_data() {
    let data: Vec<u64> = vec![1, 2, 3, 4, 5];
    let handle = spawn(move || {
        let mut sum: u64 = 0;
        for x in &data {
            sum += *x;
        }
        sum
    });
    assert_eq!(join(handle), Ok(15));
}

#[test]
fn join_surfaces_worker_panic() {
    let handle = spawn(|| {
        panic!("this worker fails on purpose");
    });
    assert_eq!(join(handle), Err(CoordError::WorkerFailure));
}

#[test]
fn spawn_n_results_in_spawn_order() {
    let handles = spawn_n(8, |i| i * 3);
    assert_eq!(handles.len(), 8);
    let results = join_all(handles).unwrap();
    assert_eq!(results, vec![0, 3, 6, 9, 12, 15, 18, 21]);
}

#[test]
fn join_all_keeps_spawn_order_despite_completion_order() {
    // Earlier workers busy-wait longer, so they tend to finish last; the
    // results must still come back in spawn order.
    let mut handles = Vec::new();
    for i in 0..4u64 {
        handles.push(taskcoord::spawn(move || {
            let mut x: u64 = 0;
            for step in 0..(4 - i) * 400_000 {
                x = x.wrapping_add(step);
            }
            (i, x)
        }));
    }
    let results = taskcoord::join_all(handles).unwrap();
    let order: Vec<u64> = results.iter().map(|r| r.0).collect();
    assert_eq!(order, vec![0, 1, 2, 3]);
}

#[test]
fn spawn_n_zero_workers() {
    let handles = spawn_n(0, |i| i);
    assert!(handles.is_empty());
    assert_eq!(join_all(handles), Ok(Vec::new()));
}

#[test]
fn join_all_joins_every_handle_despite_failure() {
    let cell = SharedCell::new(0u64);
    let mut handles = Vec::new();
    for i in 0..6u64 {
        let h = cell.clone_handle();
        handles.push(spawn(move || {
            taskcoord::increment(&h).unwrap();
            if i == 3 {
                panic!("one worker fails");
            }
            i
        }));
    }
    match join_all(handles) {
        Ok(_) => panic!("a failure report was expected"),
        Err(report) => {
            assert_eq!(report.joined, 6);
            assert_eq!(report.first_failed, 3);
        },
    }
    // Every worker ran to the point of incrementing before any could fail,
    // and every handle was joined, so the counter saw all six.
    assert_eq!(taskcoord::read_value(&cell), Ok(6));
}

#[test]
fn join_all_reports_first_failure() {
    let mut handles = Vec::new();
    for i in 0..5u64 {
        handles.push(spawn(move || {
            if i >= 2 {
                panic!("late workers fail");
            }
            i
        }));
    }
    let report = join_all(handles).unwrap_err();
    assert_eq!(report.first_failed, 2);
    assert_eq!(report.joined, 5);
}
