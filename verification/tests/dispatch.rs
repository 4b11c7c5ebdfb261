use block_dispatch::dispatch::{Dispatch, Dispatcher};
use block_dispatch::error::ErrorKind;

#[test]
fn pool_without_worker_is_refused() {
    assert!(matches!(Dispatcher::new(3, 0), Err(ErrorKind::Configuration)));
    assert!(Dispatcher::new(0, 1).is_ok());
}

#[test]
fn run_without_jobs_is_finished_at_once() {
    let mut d = Dispatcher::new(0, 4).unwrap();
    assert_eq!(d.next(), Dispatch::Finished(0));
    assert_eq!(d.next(), Dispatch::Finished(0));
}

#[test]
fn at_most_two_of_ten_jobs_run_at_a_time() {
    let mut d = Dispatcher::new(10, 2).unwrap();
    let mut order = Vec::new();
    let mut most = 0;
    let mut waits = 0;
    loop {
        match d.next() {
            Dispatch::Submit(job) => {
                order.push(job);
                most = most.max(d.running());
            }
            Dispatch::Wait => {
                waits += 1;
                d.job_finished(Ok(()));
            }
            Dispatch::Finished(done) => {
                assert_eq!(done, 10);
                break;
            }
            Dispatch::Aborted(kind) => panic!("aborted: {:?}", kind),
        }
        assert!(d.running() <= 2);
    }
    assert_eq!(order, (0..10).collect::<Vec<usize>>());
    assert_eq!(most, 2);
    assert_eq!(waits, 10);
    assert_eq!(d.submitted(), 10);
    assert_eq!(d.running(), 0);
}

#[test]
fn jobs_are_submitted_until_the_pool_is_full() {
    let mut d = Dispatcher::new(5, 3).unwrap();
    assert_eq!(d.next(), Dispatch::Submit(0));
    assert_eq!(d.next(), Dispatch::Submit(1));
    assert_eq!(d.next(), Dispatch::Submit(2));
    assert_eq!(d.next(), Dispatch::Wait);
    assert_eq!(d.next(), Dispatch::Wait);
    d.job_finished(Ok(()));
    assert_eq!(d.running(), 2);
    assert_eq!(d.next(), Dispatch::Submit(3));
    assert_eq!(d.next(), Dispatch::Wait);
}

#[test]
fn failure_stops_submission_and_ends_the_run_once_drained() {
    let mut d = Dispatcher::new(5, 2).unwrap();
    assert_eq!(d.next(), Dispatch::Submit(0));
    assert_eq!(d.next(), Dispatch::Submit(1));
    d.job_finished(Err(ErrorKind::Invocation));
    assert_eq!(d.next(), Dispatch::Wait);
    assert_eq!(d.submitted(), 2);
    d.job_finished(Err(ErrorKind::CleanupIo));
    assert_eq!(d.next(), Dispatch::Aborted(ErrorKind::Invocation));
    assert_eq!(d.next(), Dispatch::Aborted(ErrorKind::Invocation));
    assert_eq!(d.submitted(), 2);
}

#[test]
fn report_without_running_job_changes_nothing() {
    let mut d = Dispatcher::new(1, 1).unwrap();
    d.job_finished(Err(ErrorKind::StagingIo));
    assert_eq!(d.running(), 0);
    assert_eq!(d.next(), Dispatch::Submit(0));
    d.job_finished(Ok(()));
    assert_eq!(d.next(), Dispatch::Finished(1));
}
