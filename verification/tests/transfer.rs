use adbrowse::transfer::{TransferQueue, TransferStatus};

#[test]
fn add_gives_increasing_ids() {
    let mut q = TransferQueue::new();
    assert_eq!(q.add("/a".into(), "/b".into(), true, false), 0);
    assert_eq!(q.add("/c".into(), "/d".into(), false, true), 1);
    assert_eq!(q.next_id, 2);
    assert_eq!(q.jobs.len(), 2);
    assert_eq!(q.jobs[1].source, "/c");
    assert_eq!(q.jobs[1].destination, "/d");
    assert!(!q.jobs[1].to_android);
    assert!(q.jobs[1].is_dir);
    assert_eq!(q.jobs[1].status, TransferStatus::Pending);
    assert!(q.jobs[1].error.is_none());
}

#[test]
fn status_transitions() {
    let mut q = TransferQueue::new();
    let a = q.add("/a".into(), "/b".into(), true, false);
    let b = q.add("/c".into(), "/d".into(), true, false);
    assert!(!q.has_active());
    assert_eq!(q.next_pending().unwrap().id, a);
    q.mark_started(a);
    assert!(q.has_active());
    assert_eq!(q.active_job().unwrap().id, a);
    assert_eq!(q.next_pending().unwrap().id, b);
    q.mark_completed(a);
    assert!(!q.has_active());
    assert_eq!(q.jobs[0].status, TransferStatus::Completed);
    q.mark_started(b);
    q.mark_failed(b, "broken pipe".into());
    assert_eq!(q.jobs[1].status, TransferStatus::Failed);
    assert_eq!(q.jobs[1].error.as_deref(), Some("broken pipe"));
    assert!(q.next_pending().is_none());
}

#[test]
fn cancel_stops_active_jobs() {
    let mut q = TransferQueue::new();
    let a = q.add("/a".into(), "/b".into(), true, false);
    q.add("/c".into(), "/d".into(), true, false);
    q.mark_started(a);
    q.cancel_active();
    assert!(!q.has_active());
    assert_eq!(q.jobs[0].status, TransferStatus::Failed);
    assert_eq!(q.jobs[0].error.as_deref(), Some("cancelled"));
    assert_eq!(q.jobs[1].status, TransferStatus::Pending);
}

#[test]
fn recent_keeps_last_jobs() {
    let mut q = TransferQueue::new();
    for i in 0..5 {
        q.add(format!("/s{}", i), format!("/d{}", i), true, false);
    }
    let r = q.recent(3);
    assert_eq!(r.len(), 3);
    assert_eq!(r[0].id, 2);
    assert_eq!(r[2].id, 4);
    assert_eq!(q.recent(10).len(), 5);
}
