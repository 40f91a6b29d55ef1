use yt_dlp::download_manager::{
    Dispatch, DownloadManager, DownloadPriority, DownloadStatus, DownloadTask, ManagerConfig,
    WaitStep,
};
use yt_dlp::error::Error;

fn manager(cap: usize) -> DownloadManager {
    DownloadManager::with_config(ManagerConfig {
        max_concurrent_downloads: cap,
        ..ManagerConfig::default()
    })
}

fn started(dispatch: Dispatch) -> u64 {
    match dispatch {
        Dispatch::Start(task) => task.id,
        other => panic!("expected a task to start, got {:?}", other),
    }
}

#[test]
fn priority_from_number() {
    assert_eq!(DownloadPriority::from_i32(0), DownloadPriority::Low);
    assert_eq!(DownloadPriority::from_i32(1), DownloadPriority::Normal);
    assert_eq!(DownloadPriority::from_i32(2), DownloadPriority::High);
    assert_eq!(DownloadPriority::from_i32(3), DownloadPriority::Critical);
    assert_eq!(DownloadPriority::from_i32(4), DownloadPriority::Normal);
    assert_eq!(DownloadPriority::from_i32(-1), DownloadPriority::Normal);
    assert_eq!(DownloadPriority::from_i32(i32::MIN), DownloadPriority::Normal);
    for value in 0..4 {
        assert_eq!(DownloadPriority::from_i32(value).level(), value);
    }
}

#[test]
fn default_configuration() {
    let config = ManagerConfig::default();
    assert_eq!(config.max_concurrent_downloads, 3);
    assert_eq!(config.segment_size, 5 * 1024 * 1024);
    assert_eq!(config.parallel_segments, 4);
    assert_eq!(config.retry_attempts, 3);
    assert_eq!(config.max_buffer_size, 10 * 1024 * 1024);
    assert_eq!(DownloadManager::new().config(), config);
}

#[test]
fn ids_grow_from_zero_and_tasks_start_queued() {
    let mut m = manager(1);
    assert_eq!(m.get_status(0), None);
    let a = m.enqueue("http://a", "/tmp/a", None);
    let b = m.enqueue_with_progress("http://b", "/tmp/b", Some(DownloadPriority::High));
    let c = m.enqueue("http://c", "/tmp/c", Some(DownloadPriority::Low));
    assert_eq!((a, b, c), (0, 1, 2));
    assert_eq!(m.task_count(), 3);
    assert_eq!(m.queue_len(), 3);
    for id in [a, b, c] {
        assert_eq!(m.get_status(id), Some(DownloadStatus::Queued));
    }
    assert_eq!(m.get_status(3), None);
}

#[test]
fn critical_starts_before_normal_once_the_slot_frees() {
    let mut m = manager(1);
    let a = m.enqueue("http://a", "/tmp/a", Some(DownloadPriority::Low));
    assert_eq!(started(m.dispatch_next()), a);
    let b = m.enqueue("http://b", "/tmp/b", Some(DownloadPriority::Critical));
    let c = m.enqueue("http://c", "/tmp/c", Some(DownloadPriority::Normal));
    // The slot is taken: nothing starts, and A is not displaced.
    assert!(matches!(m.dispatch_next(), Dispatch::Busy));
    assert!(m.is_running(a));
    assert!(m.finish(a, Ok(())));
    assert_eq!(started(m.dispatch_next()), b);
    assert!(matches!(m.dispatch_next(), Dispatch::Busy));
    assert!(m.finish(b, Ok(())));
    assert_eq!(started(m.dispatch_next()), c);
    assert!(m.finish(c, Ok(())));
    assert!(matches!(m.dispatch_next(), Dispatch::Idle));
}

#[test]
fn order_among_b_and_c_does_not_depend_on_enqueue_order() {
    let mut m = manager(1);
    let a = m.enqueue("http://a", "/tmp/a", Some(DownloadPriority::Low));
    assert_eq!(started(m.dispatch_next()), a);
    let c = m.enqueue("http://c", "/tmp/c", Some(DownloadPriority::Normal));
    let b = m.enqueue("http://b", "/tmp/b", Some(DownloadPriority::Critical));
    assert!(m.finish(a, Ok(())));
    assert_eq!(started(m.dispatch_next()), b);
    assert!(m.finish(b, Ok(())));
    assert_eq!(started(m.dispatch_next()), c);
}

#[test]
fn equal_priorities_start_in_enqueue_order() {
    let mut m = manager(10);
    let ids: Vec<u64> = (0..5)
        .map(|i| m.enqueue(&format!("http://{}", i), "/tmp/x", Some(DownloadPriority::High)))
        .collect();
    let low = m.enqueue("http://low", "/tmp/low", Some(DownloadPriority::Low));
    let none = m.enqueue("http://none", "/tmp/none", None);
    for id in ids {
        assert_eq!(started(m.dispatch_next()), id);
    }
    assert_eq!(started(m.dispatch_next()), none);
    assert_eq!(started(m.dispatch_next()), low);
    assert!(matches!(m.dispatch_next(), Dispatch::Idle));
}

#[test]
fn no_more_in_flight_than_the_cap() {
    let mut m = manager(2);
    for i in 0..5 {
        m.enqueue(&format!("http://{}", i), "/tmp/x", None);
    }
    assert_eq!(started(m.dispatch_next()), 0);
    assert_eq!(started(m.dispatch_next()), 1);
    assert!(matches!(m.dispatch_next(), Dispatch::Busy));
    assert_eq!(m.running_len(), 2);
    assert_eq!(m.queue_len(), 3);
    assert!(m.finish(1, Ok(())));
    assert_eq!(started(m.dispatch_next()), 2);
    assert!(matches!(m.dispatch_next(), Dispatch::Busy));
    assert_eq!(m.running_len(), 2);
}

#[test]
fn a_cap_of_zero_starts_nothing() {
    let mut m = manager(0);
    m.enqueue("http://a", "/tmp/a", None);
    assert!(matches!(m.dispatch_next(), Dispatch::Busy));
    assert_eq!(m.get_status(0), Some(DownloadStatus::Queued));
}

#[test]
fn started_task_carries_what_was_enqueued() {
    let mut m = manager(1);
    m.enqueue_with_progress("http://a/file", "/tmp/a", Some(DownloadPriority::High));
    match m.dispatch_next() {
        Dispatch::Start(task) => {
            assert_eq!(task.url, "http://a/file");
            assert_eq!(task.destination, "/tmp/a");
            assert_eq!(task.priority, DownloadPriority::High);
            assert_eq!(task.id, 0);
            assert!(task.reports_progress);
            let fetcher = m.fetcher_for(&task);
            assert_eq!(fetcher.url(), "http://a/file");
            assert_eq!(fetcher.segment_size(), 5 * 1024 * 1024);
            assert_eq!(fetcher.parallel_segments(), 4);
            assert_eq!(fetcher.retry_attempts(), 3);
        }
        other => panic!("expected a task to start, got {:?}", other),
    }
    assert_eq!(
        m.get_status(0),
        Some(DownloadStatus::Downloading { downloaded_bytes: 0, total_bytes: 0 })
    );
}

#[test]
fn progress_shows_in_the_status() {
    let mut m = manager(1);
    let a = m.enqueue("http://a", "/tmp/a", None);
    // Not in flight yet: the tick does not count.
    assert!(!m.report_progress(a, 1, 2));
    assert_eq!(m.get_status(a), Some(DownloadStatus::Queued));
    m.dispatch_next();
    assert!(m.report_progress(a, 512, 2048));
    assert_eq!(
        m.get_status(a),
        Some(DownloadStatus::Downloading { downloaded_bytes: 512, total_bytes: 2048 })
    );
    assert!(!m.report_progress(99, 1, 2));
}

#[test]
fn results_become_final_statuses() {
    let mut m = manager(2);
    let a = m.enqueue("http://a", "/tmp/a", None);
    let b = m.enqueue("http://b", "/tmp/b", None);
    m.dispatch_next();
    m.dispatch_next();
    assert!(m.finish(a, Ok(())));
    assert!(m.finish(b, Err(Error::Unknown("boom".to_string()))));
    assert_eq!(m.get_status(a), Some(DownloadStatus::Completed));
    assert_eq!(
        m.get_status(b),
        Some(DownloadStatus::Failed { reason: "An unknown error occurred: boom".to_string() })
    );
    assert_eq!(m.running_len(), 0);
    // A final status is never overwritten.
    assert!(!m.finish(a, Err(Error::Unknown("late".to_string()))));
    assert!(!m.report_progress(a, 1, 1));
    assert!(!m.cancel(a));
    assert!(!m.cancel(b));
    assert_eq!(m.get_status(a), Some(DownloadStatus::Completed));
    assert_eq!(
        m.get_status(b),
        Some(DownloadStatus::Failed { reason: "An unknown error occurred: boom".to_string() })
    );
}

#[test]
fn canceling_a_queued_task_removes_it_from_the_queue() {
    let mut m = manager(1);
    let a = m.enqueue("http://a", "/tmp/a", None);
    let b = m.enqueue("http://b", "/tmp/b", None);
    assert!(!m.is_running(a));
    assert!(m.cancel(a));
    assert_eq!(m.get_status(a), Some(DownloadStatus::Canceled));
    assert_eq!(m.queue_len(), 1);
    assert_eq!(m.running_len(), 0);
    assert_eq!(started(m.dispatch_next()), b);
    assert!(!m.cancel(a));
}

#[test]
fn canceling_a_running_task_silences_it() {
    let mut m = manager(1);
    let a = m.enqueue("http://a", "/tmp/a", None);
    let b = m.enqueue("http://b", "/tmp/b", None);
    m.dispatch_next();
    assert!(m.report_progress(a, 10, 100));
    assert!(m.is_running(a));
    assert!(m.cancel(a));
    assert_eq!(m.get_status(a), Some(DownloadStatus::Canceled));
    assert!(!m.is_running(a));
    // Ticks and the result of the aborted transfer no longer count.
    assert!(!m.report_progress(a, 20, 100));
    assert!(!m.finish(a, Ok(())));
    assert_eq!(m.get_status(a), Some(DownloadStatus::Canceled));
    // The slot is free again.
    assert_eq!(started(m.dispatch_next()), b);
}

#[test]
fn canceling_an_unknown_task_does_nothing() {
    let mut m = manager(1);
    assert!(!m.cancel(0));
    m.enqueue("http://a", "/tmp/a", None);
    assert!(!m.cancel(1));
    assert_eq!(m.get_status(0), Some(DownloadStatus::Queued));
}

#[test]
fn waiting_polls_until_a_final_status() {
    let mut m = manager(1);
    assert!(matches!(m.poll_completion(0), WaitStep::Unknown));
    let a = m.enqueue("http://a", "/tmp/a", None);
    assert!(matches!(m.poll_completion(a), WaitStep::Wait { millis: 100 }));
    m.dispatch_next();
    assert!(matches!(m.poll_completion(a), WaitStep::Wait { millis: 100 }));
    m.finish(a, Ok(()));
    assert!(matches!(m.poll_completion(a), WaitStep::Done(DownloadStatus::Completed)));
}

#[test]
fn only_one_consumer_at_a_time() {
    let mut m = manager(1);
    m.enqueue("http://a", "/tmp/a", None);
    assert!(m.claim_consumer());
    m.enqueue("http://b", "/tmp/b", None);
    assert!(!m.claim_consumer());
    assert_eq!(started(m.dispatch_next()), 0);
    assert!(!m.claim_consumer());
    m.finish(0, Ok(()));
    assert_eq!(started(m.dispatch_next()), 1);
    // The queue is empty: the consumer stops, and the next enqueue may start one.
    assert!(matches!(m.dispatch_next(), Dispatch::Idle));
    m.enqueue("http://c", "/tmp/c", None);
    assert!(m.claim_consumer());
}

#[test]
fn status_knows_whether_it_is_final() {
    assert!(!DownloadStatus::Queued.terminal());
    assert!(!DownloadStatus::Downloading { downloaded_bytes: 1, total_bytes: 2 }.terminal());
    assert!(DownloadStatus::Completed.terminal());
    assert!(DownloadStatus::Failed { reason: String::new() }.terminal());
    assert!(DownloadStatus::Canceled.terminal());
    let status = DownloadStatus::Failed { reason: "x".to_string() };
    assert_eq!(status.duplicate(), status);
}

#[test]
fn tasks_are_ordered_by_priority_then_age() {
    let task = |id: u64, priority: DownloadPriority| DownloadTask {
        url: String::new(),
        destination: String::new(),
        priority,
        id,
        reports_progress: false,
    };
    assert!(task(5, DownloadPriority::Critical).precedes(&task(1, DownloadPriority::High)));
    assert!(!task(1, DownloadPriority::High).precedes(&task(5, DownloadPriority::Critical)));
    assert!(task(1, DownloadPriority::Low).precedes(&task(2, DownloadPriority::Low)));
    assert!(!task(2, DownloadPriority::Low).precedes(&task(1, DownloadPriority::Low)));
    assert!(!task(1, DownloadPriority::Low).precedes(&task(1, DownloadPriority::Low)));
}
