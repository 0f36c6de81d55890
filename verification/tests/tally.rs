use enclave_demos::tally::{JobTally, TallyError, DEMO_JOBS, DEMO_WORKERS, JOB_RESULT};
use std::sync::mpsc::channel;
use threadpool::ThreadPool;

#[test]
fn tally_of_demo_results_passes() {
    let mut tally = JobTally::new(DEMO_JOBS);
    while tally.wants_more() {
        assert_eq!(tally.record(JOB_RESULT), Ok(()));
    }
    assert_eq!(tally.received(), 8);
    assert_eq!(tally.total(), 8);
    assert!(tally.complete_with_total(8));
}

#[test]
fn tally_refuses_values_beyond_expected() {
    let mut tally = JobTally::new(2);
    assert_eq!(tally.record(5), Ok(()));
    assert_eq!(tally.record(-3), Ok(()));
    assert!(!tally.wants_more());
    assert_eq!(tally.record(1), Err(TallyError::Complete));
    assert_eq!(tally.total(), 2);
    assert_eq!(tally.received(), 2);
}

#[test]
fn tally_refuses_overflow() {
    let mut tally = JobTally::new(3);
    assert_eq!(tally.record(i32::MAX), Ok(()));
    assert_eq!(tally.record(1), Err(TallyError::Overflow));
    assert_eq!(tally.total(), i32::MAX);
    assert_eq!(tally.received(), 1);
    assert_eq!(tally.record(i32::MIN), Ok(()));
    assert_eq!(tally.total(), -1);
}

#[test]
fn tally_incomplete_fails_check() {
    let mut tally = JobTally::new(8);
    for _ in 0..7 {
        tally.record(1).unwrap();
    }
    assert!(tally.wants_more());
    assert!(!tally.complete_with_total(7));
    assert!(!tally.complete_with_total(8));
}

#[test]
fn empty_tally_is_complete() {
    let tally = JobTally::new(0);
    assert!(!tally.wants_more());
    assert!(tally.complete_with_total(0));
}

#[test]
fn threadpool_jobs_fill_the_tally() {
    let pool = ThreadPool::new(DEMO_WORKERS);
    let (tx, rx) = channel();
    for _ in 0..DEMO_JOBS {
        let tx = tx.clone();
        pool.execute(move || {
            tx.send(JOB_RESULT).expect("channel will be there");
        });
    }
    let mut tally = JobTally::new(DEMO_JOBS);
    while tally.wants_more() {
        let value = rx.recv().unwrap();
        tally.record(value).unwrap();
    }
    assert!(tally.complete_with_total(8));
}
