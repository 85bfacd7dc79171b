use taskcoord::CoordError;
use taskcoord::SharedCell;
use taskcoord::increment;
use taskcoord::join_all;
use taskcoord::read_value;
use taskcoord::spawn;

fn count_with_workers(k: usize) {
    let cell = SharedCell::new(0u64);
    let mut handles = Vec::new();
    for _ in 0..k {
        let h = cell.clone_handle();
        handles.push(spawn(move || {
            increment(&h).unwrap();
        }));
    }
    let results = join_all(handles).unwrap();
    assert_eq!(results.len(), k);
    assert_eq!(read_value(&cell), Ok(k as u64));
}

#[test]
fn counter_is_exact_for_1_worker() {
    count_with_workers(1);
}

#[test]
fn counter_is_exact_for_10_workers() {
    count_with_workers(10);
}

#[test]
fn counter_is_exact_for_1000_workers() {
    count_with_workers(1000);
}

#[test]
fn guard_reads_what_was_stored() {
    let cell = SharedCell::new(7u64);
    {
        let mut guard = cell.lock().unwrap();
        assert_eq!(guard.get(), 7);
        guard.set(11);
        assert_eq!(guard.get(), 11);
    }
    assert_eq!(read_value(&cell), Ok(11));
}

#[test]
fn guard_replace_hands_previous_value_out() {
    let cell = SharedCell::new(String::from("before"));
    let mut guard = cell.lock().unwrap();
    let prev = guard.replace(String::from("after"));
    assert_eq!(prev, "before");
    drop(guard);
    let mut guard = cell.lock().unwrap();
    assert_eq!(guard.replace(String::new()), "after");
}

#[test]
fn lock_is_poisoned_after_holder_panics() {
    let cell = SharedCell::new(0u64);
    let h = cell.clone_handle();
    let worker = spawn(move || {
        let _held = h.lock().unwrap();
        panic!("failing while the lock is held");
    });
    assert_eq!(taskcoord::join(worker), Err(CoordError::WorkerFailure));
    assert!(cell.lock().is_err());
    assert_eq!(increment(&cell), Err(CoordError::LockPoisoned));
    assert_eq!(read_value(&cell), Err(CoordError::LockPoisoned));
}

#[test]
fn bump_counts_up_within_one_lock_session() {
    let cell = SharedCell::new(5u64);
    let mut guard = cell.lock().unwrap();
    assert_eq!(taskcoord::bump(&mut guard), 6);
    assert_eq!(taskcoord::bump(&mut guard), 7);
    drop(guard);
    assert_eq!(read_value(&cell), Ok(7));
}

#[test]
fn increment_saturates_at_the_maximum() {
    let cell = SharedCell::new(u64::MAX - 1);
    assert_eq!(increment(&cell), Ok(u64::MAX));
    assert_eq!(increment(&cell), Ok(u64::MAX));
    assert_eq!(read_value(&cell), Ok(u64::MAX));
}

#[test]
fn handles_share_one_slot() {
    let a = SharedCell::new(0u64);
    let b = a.clone_handle();
    increment(&a).unwrap();
    increment(&b).unwrap();
    assert_eq!(read_value(&a), Ok(2));
    assert_eq!(read_value(&b), Ok(2));
}
