use http_server::server::{Lifecycle, Server, ServerError, ServerState, Turn};
use http_server::threadpool::{Taken, ThreadPool, ThreadPoolError, WorkerState};

#[test]
fn a_pool_needs_a_worker() {
    assert!(matches!(ThreadPool::<u32>::new(0), Err(ThreadPoolError::InvalidSize)));
    let pool = ThreadPool::<u32>::new(3).unwrap();
    assert_eq!(pool.size(), 3);
    assert!(pool.is_open());
    assert_eq!(pool.active_count(), 0);
    assert_eq!(pool.worker(2), WorkerState::Idle);
    assert!(!pool.is_drained());
}

#[test]
fn more_jobs_than_workers_are_all_run_once_and_in_order() {
    let mut pool = ThreadPool::<u32>::new(2).unwrap();
    for job in 0..7 {
        assert!(pool.execute(job).is_ok());
    }
    assert_eq!(pool.active_count(), 0);
    let mut ran = Vec::new();
    loop {
        let mut busy = Vec::new();
        for w in 0..2 {
            match pool.take(w) {
                Taken::Run(job) => {
                    ran.push(job);
                    busy.push(w);
                }
                Taken::Wait => {}
                Taken::Exit => panic!("the pool is open"),
            }
        }
        assert_eq!(pool.active_count(), busy.len());
        if busy.is_empty() {
            break;
        }
        for w in busy {
            assert_eq!(pool.worker(w), WorkerState::Busy);
            pool.finished(w);
        }
        assert_eq!(pool.active_count(), 0);
    }
    assert_eq!(ran, vec![0, 1, 2, 3, 4, 5, 6]);
}

#[test]
fn jobs_that_wait_are_run_before_the_workers_stop() {
    let mut pool = ThreadPool::<&str>::new(2).unwrap();
    pool.execute("a").unwrap();
    pool.execute("b").unwrap();
    pool.execute("c").unwrap();
    pool.terminate();
    assert!(!pool.is_open());
    match pool.execute("d") {
        Err(ThreadPoolError::JobSendError(why)) => assert_eq!(why, "Thread pool is shutting down"),
        _ => panic!("a closed pool takes on nothing"),
    }
    let mut ran = Vec::new();
    let mut gone = [false, false];
    while !pool.is_drained() {
        for w in 0..2 {
            if gone[w] {
                continue;
            }
            match pool.take(w) {
                Taken::Run(job) => {
                    ran.push(job);
                    pool.finished(w);
                }
                Taken::Exit => gone[w] = true,
                Taken::Wait => panic!("a closed pool does not make a worker wait"),
            }
        }
    }
    assert_eq!(ran, vec!["a", "b", "c"]);
    assert_eq!(pool.active_count(), 0);
    assert_eq!(pool.worker(0), WorkerState::Gone);
    assert_eq!(pool.worker(1), WorkerState::Gone);
    // Stopping again changes nothing.
    pool.terminate();
    assert!(pool.is_drained());
}

#[test]
fn an_open_and_empty_pool_makes_a_worker_wait() {
    let mut pool = ThreadPool::<u8>::new(1).unwrap();
    assert!(matches!(pool.take(0), Taken::Wait));
    assert_eq!(pool.worker(0), WorkerState::Idle);
    pool.execute(9).unwrap();
    assert!(matches!(pool.take(0), Taken::Run(9)));
    assert_eq!(pool.active_count(), 1);
    pool.terminate();
    assert_eq!(pool.active_count(), 1);
    pool.finished(0);
    assert_eq!(pool.active_count(), 0);
    assert!(matches!(pool.take(0), Taken::Exit));
    assert!(pool.is_drained());
}

#[test]
fn errors_say_what_went_wrong() {
    assert_eq!(ThreadPoolError::InvalidSize.message(), "Thread pool size must be greater than 0");
    assert_eq!(ThreadPoolError::JobSendError("closed".to_string()).message(), "Failed to send job: closed");
    assert_eq!(ServerError::IoError("refused".to_string()).message(), "IO Error: refused");
    assert_eq!(
        ServerError::ThreadPoolError(ThreadPoolError::InvalidSize).message(),
        "Thread Pool Error: Thread pool size must be greater than 0"
    );
    assert_eq!(ServerError::ShuttingDown.message(), "Server is shutting down");
    assert_eq!(ServerError::TooManyErrors.message(), "Too many consecutive errors");
    assert!(matches!(
        ServerError::from(ThreadPoolError::InvalidSize),
        ServerError::ThreadPoolError(ThreadPoolError::InvalidSize)
    ));
}

#[test]
fn a_server_needs_a_worker() {
    assert!(matches!(
        Server::started_at(0, 0),
        Err(ServerError::ThreadPoolError(ThreadPoolError::InvalidSize))
    ));
    assert!(matches!(Server::new(0), Err(ServerError::ThreadPoolError(ThreadPoolError::InvalidSize))));
    let s = Server::new(2).unwrap();
    assert_eq!(s.workers(), 2);
    assert_eq!(s.lifecycle(), Lifecycle::Running);
    assert_eq!(s.stages().len(), 0);
    assert_eq!(s.state().request_count(), 0);
    assert_eq!(s.state().routes().len(), 4);
    assert_eq!(s.state().start_time(), s.state().last_error_time());
    assert!(s.state().start_time() > 1_600_000_000_000);
    assert_eq!(s.turn(), Turn::Accept);
}

#[test]
fn counters_follow_accepts_and_failures() {
    let mut s = ServerState::started_at(100);
    assert_eq!((s.start_time(), s.last_error_time()), (100, 100));
    s.record_accept();
    s.record_accept();
    assert_eq!((s.request_count(), s.error_count(), s.consecutive_errors()), (2, 0, 0));
    s.record_failure_at(250);
    s.record_failure_at(300);
    assert_eq!((s.request_count(), s.error_count(), s.consecutive_errors()), (2, 2, 2));
    assert_eq!(s.last_error_time(), 300);
    s.record_accept();
    assert_eq!((s.request_count(), s.error_count(), s.consecutive_errors()), (3, 2, 0));
    s.record_failure();
    assert_eq!((s.error_count(), s.consecutive_errors()), (3, 1));
    assert!(s.last_error_time() > 1_600_000_000_000);
    s.reset_breaker();
    assert_eq!((s.request_count(), s.error_count(), s.consecutive_errors()), (3, 3, 0));
}

#[test]
fn ten_failures_within_five_seconds_trip_the_breaker() {
    let mut s = Server::started_at(1, 0).unwrap();
    for i in 0..9 {
        s.failed_at(1_000 + i);
        assert_eq!(s.turn_at(1_000 + i), Turn::Accept);
    }
    s.failed_at(1_009);
    assert_eq!(s.state().consecutive_errors(), 10);
    assert_eq!(s.turn_at(1_009), Turn::Trip(5000));
    assert_eq!(s.turn_at(6_008), Turn::Trip(5000));
    assert_eq!(s.turn_at(6_009), Turn::Accept);
    // A clock that went back leaves the breaker open.
    assert_eq!(s.turn_at(0), Turn::Trip(5000));
    assert!(s.state().breaker_open_at(1_009));
    assert!(!s.state().breaker_open_at(6_009));
    assert!(matches!(s.trip(), ServerError::TooManyErrors));
    assert_eq!(s.state().consecutive_errors(), 0);
    assert_eq!(s.state().error_count(), 10);
    assert_eq!(s.turn_at(1_009), Turn::Accept);
}

#[test]
fn an_accept_between_failures_keeps_the_breaker_closed() {
    let mut s = Server::started_at(1, 0).unwrap();
    for i in 0..9 {
        s.failed_at(i);
    }
    s.accepted();
    s.failed_at(10);
    assert_eq!(s.state().consecutive_errors(), 1);
    assert_eq!(s.state().request_count(), 1);
    assert_eq!(s.turn_at(10), Turn::Accept);
}

#[test]
fn after_shutdown_nothing_is_accepted() {
    let mut s = Server::started_at(1, 0).unwrap();
    assert!(s.before_accept().is_ok());
    assert!(s.admits_job());
    assert_eq!(s.lifecycle().as_code(), 0);
    assert!(s.shutdown().is_ok());
    assert_eq!(s.lifecycle(), Lifecycle::ShuttingDown);
    assert_eq!(s.lifecycle().as_code(), 1);
    assert_eq!(s.turn_at(5), Turn::Stop);
    assert_eq!(s.turn(), Turn::Stop);
    assert!(matches!(s.before_accept(), Err(ServerError::ShuttingDown)));
    assert!(!s.admits_job());
    for i in 0..20 {
        s.failed_at(i);
    }
    assert_eq!(s.turn_at(20), Turn::Stop);
    assert!(s.shutdown().is_ok());
    assert_eq!(s.lifecycle(), Lifecycle::ShuttingDown);
    s.complete_shutdown();
    assert_eq!(s.lifecycle(), Lifecycle::ShutdownComplete);
    assert_eq!(s.lifecycle().as_code(), 2);
    assert!(s.shutdown().is_ok());
    s.complete_shutdown();
    assert_eq!(s.lifecycle(), Lifecycle::ShutdownComplete);
    assert_eq!(s.turn_at(0), Turn::Stop);
}

#[test]
fn completing_a_shutdown_that_was_not_asked_for_changes_nothing() {
    let mut s = Server::started_at(1, 0).unwrap();
    s.complete_shutdown();
    assert_eq!(s.lifecycle(), Lifecycle::Running);
    s.failed();
    assert_eq!(s.state().error_count(), 1);
}
