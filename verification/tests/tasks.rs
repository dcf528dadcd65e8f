//! Background tasks.
use incline_design::tasks::{
    BackgroundTaskState, BackgroundTaskTicket, PendingLoad, ProgressSnapshot,
};

#[test]
fn tickets_are_handed_out_in_order() {
    let mut tasks: BackgroundTaskState<u8> = BackgroundTaskState::new();
    assert_eq!(tasks.begin(), BackgroundTaskTicket(0));
    assert_eq!(tasks.begin(), BackgroundTaskTicket(1));
    assert!(tasks.is_busy());
}

#[test]
fn taken_tickets_are_passed_over() {
    let mut tasks: BackgroundTaskState<u8> = BackgroundTaskState::new();
    let first = tasks.begin();
    tasks.settle_cpu(first, true);
    tasks.next_ticket = u64::MAX;
    assert_eq!(tasks.begin(), BackgroundTaskTicket(u64::MAX));
    assert_eq!(tasks.begin(), BackgroundTaskTicket(1));
}

#[test]
fn a_settled_task_may_wait_for_its_upload() {
    let mut tasks: BackgroundTaskState<u8> = BackgroundTaskState::new();
    let a = tasks.begin();
    let b = tasks.begin();
    assert!(tasks.settle_cpu(a, false));
    assert!(!tasks.has_gpu_uploads());
    assert!(tasks.settle_cpu(b, true));
    assert!(tasks.has_gpu_uploads());
    assert!(tasks.is_busy());
    tasks.finish_gpu_uploads();
    assert!(!tasks.is_busy());
}

#[test]
fn a_ticket_settles_once() {
    let mut tasks: BackgroundTaskState<u8> = BackgroundTaskState::new();
    let a = tasks.begin();
    assert!(tasks.settle_cpu(a, true));
    assert!(!tasks.settle_cpu(a, true));
    assert!(tasks.cancel(a));
    assert!(!tasks.cancel(a));
    assert!(!tasks.is_busy());
}

#[test]
fn the_longest_running_task_is_shown() {
    let mut tasks: BackgroundTaskState<u8> = BackgroundTaskState::new();
    let a = tasks.begin();
    let b = tasks.begin();
    tasks.report(a, "first".to_string(), 1);
    tasks.report(b, "second".to_string(), 2);
    assert_eq!(tasks.oldest_reported().map(|task| task.progress), Some(1));
    let shown = tasks
        .status_message(Some(ProgressSnapshot { fraction: 0.5f32, units: Some("MB") }))
        .unwrap();
    assert_eq!(shown.text, "first");
    assert_eq!(shown.progress, Some(0.5));
    assert_eq!(shown.units, Some("MB"));
    tasks.cancel(a);
    let shown = tasks.status_message::<f32, &str>(None).unwrap();
    assert_eq!(shown.text, "second");
    assert_eq!(shown.progress, None);
    assert_eq!(shown.units, None);
    tasks.settle_cpu(b, false);
    assert!(tasks.status_message::<f32, &str>(None).is_none());
}

#[test]
fn loads_are_cancelled_together() {
    let mut tasks: BackgroundTaskState<u8> = BackgroundTaskState::new();
    let a = tasks.begin();
    let b = tasks.begin();
    let c = tasks.begin();
    tasks.report(a, "a".to_string(), 0);
    tasks.report(c, "c".to_string(), 0);
    tasks.cancel_loads(&vec![
        PendingLoad { ticket: a, has_report: false },
        PendingLoad { ticket: b, has_report: true },
    ]);
    assert!(!tasks.cpu_pending.contains(&a.0));
    assert!(!tasks.cpu_pending.contains(&b.0));
    assert!(tasks.cpu_pending.contains(&c.0));
    assert_eq!(tasks.reported.len(), 1);
    assert_eq!(tasks.reported[0].label, "c");
}

#[test]
fn other_tasks_do_not_take_the_bar() {
    let mut tasks: BackgroundTaskState<u8> = BackgroundTaskState::new();
    let a = tasks.begin();
    let b = tasks.begin();
    tasks.report(a, "first".to_string(), 1);
    tasks.report(b, "second".to_string(), 2);
    tasks.cancel(b);
    assert_eq!(tasks.oldest_reported().map(|task| task.progress), Some(1));
    tasks.cancel(a);
    assert!(tasks.oldest_reported().is_none());
}
