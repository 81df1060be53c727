use render_queue::progress::Progress;
use render_queue::protocol::IPCEvent;
use render_queue::queue::{Directive, TaskInfo, TaskQueue, TaskView};
use render_queue::status::TaskStatus;

fn info(name: &str) -> TaskInfo {
    TaskInfo {
        name: name.to_string(),
        output: format!("/out/{name}.mp4"),
        path: format!("/charts/{name}.zip"),
        cover: format!("/tmp/{name}.png"),
    }
}

fn view_of(q: &TaskQueue, id: u32) -> TaskView {
    q.tasks().into_iter().find(|t| t.id == id).unwrap()
}

fn is_pending(s: &TaskStatus) -> bool {
    matches!(s, TaskStatus::Pending)
}

fn is_running(s: &TaskStatus) -> bool {
    matches!(s, TaskStatus::Loading | TaskStatus::Mixing | TaskStatus::Rendering { .. })
}

#[test]
fn post_returns_sequential_ids() {
    let mut q = TaskQueue::new();
    assert_eq!(q.post(info("a")), 0);
    assert_eq!(q.post(info("b")), 1);
    q.cancel(0);
    assert_eq!(q.post(info("c")), 2);
    assert_eq!(q.len_exec(), 3);
}

#[test]
fn tasks_are_listed_newest_first() {
    let mut q = TaskQueue::new();
    q.post(info("a"));
    q.post(info("b"));
    q.post(info("c"));
    let list = q.tasks();
    let ids: Vec<u32> = list.iter().map(|t| t.id).collect();
    assert_eq!(ids, vec![2, 1, 0]);
    assert_eq!(list[0].name, "c");
    assert_eq!(list[0].output, "/out/c.mp4");
    assert_eq!(list[0].path, "/charts/c.zip");
    assert_eq!(list[0].cover, "/tmp/c.png");
    assert!(list.iter().all(|t| is_pending(&t.status)));
}

#[test]
fn empty_queue_lists_nothing_and_starts_nothing() {
    let mut q = TaskQueue::new();
    assert!(q.tasks().is_empty());
    assert_eq!(q.start_next(), None);
}

#[test]
fn cancel_pending_job_goes_straight_to_canceled() {
    let mut q = TaskQueue::new();
    let id = q.post(info("a"));
    q.cancel(id);
    // Only the flag is set by the call; the queue observes it later.
    assert!(is_pending(&view_of(&q, id).status));
    // A canceled job is never started.
    assert_eq!(q.start_next(), None);
    assert!(matches!(view_of(&q, id).status, TaskStatus::Canceled));
}

#[test]
fn canceled_waiting_job_is_skipped_for_the_next() {
    let mut q = TaskQueue::new();
    q.post(info("a"));
    q.post(info("b"));
    q.post(info("c"));
    q.cancel(0);
    q.cancel(1);
    assert_eq!(q.start_next(), Some(2));
    assert!(matches!(view_of(&q, 0).status, TaskStatus::Canceled));
    assert!(matches!(view_of(&q, 1).status, TaskStatus::Canceled));
    assert!(matches!(view_of(&q, 2).status, TaskStatus::Loading));
}

#[test]
fn cancel_while_another_job_runs_waits_for_its_turn() {
    let mut q = TaskQueue::new();
    q.post(info("a"));
    q.post(info("b"));
    q.start_next();
    q.cancel(1);
    assert!(is_pending(&view_of(&q, 1).status));
    q.finish_done(10, "", "");
    assert_eq!(q.start_next(), None);
    assert!(matches!(view_of(&q, 1).status, TaskStatus::Canceled));
}

#[test]
fn second_job_waits_for_first() {
    let mut q = TaskQueue::new();
    let a = q.post(info("a"));
    let b = q.post(info("b"));
    assert_eq!(q.start_next(), Some(a));
    assert_eq!(q.start_next(), None);
    for event in [IPCEvent::StartMixing, IPCEvent::StartRender(2), IPCEvent::Frame] {
        assert_eq!(q.on_event(event, 10), Directive::Continue);
        assert!(is_pending(&view_of(&q, b).status));
    }
    assert_eq!(q.on_event(IPCEvent::Frame, 20), Directive::Continue);
    assert_eq!(q.on_event(IPCEvent::Done(1500), 30), Directive::CollectOutput(1500));
    assert!(is_pending(&view_of(&q, b).status));
    q.finish_done(1500, "", "");
    assert!(matches!(view_of(&q, a).status, TaskStatus::Done { duration_ms: 1500, .. }));
    assert_eq!(q.start_next(), Some(b));
    assert!(matches!(view_of(&q, b).status, TaskStatus::Loading));
}

#[test]
fn at_most_one_job_runs() {
    let mut q = TaskQueue::new();
    for name in ["a", "b", "c"] {
        q.post(info(name));
    }
    q.start_next();
    q.on_event(IPCEvent::StartMixing, 0);
    let running = q.tasks().iter().filter(|t| is_running(&t.status)).count();
    assert_eq!(running, 1);
    q.on_exit(false, Some(3), "crash");
    assert_eq!(q.tasks().iter().filter(|t| is_running(&t.status)).count(), 0);
    q.start_next();
    assert_eq!(q.tasks().iter().filter(|t| is_running(&t.status)).count(), 1);
    assert!(matches!(view_of(&q, 1).status, TaskStatus::Loading));
}

#[test]
fn progress_counts_frames_exactly() {
    let mut q = TaskQueue::new();
    q.post(info("a"));
    q.start_next();
    q.on_event(IPCEvent::StartMixing, 0);
    assert!(matches!(view_of(&q, 0).status, TaskStatus::Mixing));
    q.on_event(IPCEvent::StartRender(4), 0);
    match view_of(&q, 0).status {
        TaskStatus::Rendering { progress } => {
            assert_eq!(progress, Progress { done: 0, total: 4, fps: 0, estimate_ms: 0 })
        }
        _ => panic!("not rendering"),
    }
    let expected = [
        (100, Progress { done: 1, total: 4, fps: 0, estimate_ms: 3000 }),
        (600, Progress { done: 2, total: 4, fps: 0, estimate_ms: 2000 }),
        (1100, Progress { done: 3, total: 4, fps: 3, estimate_ms: 334 }),
        (1200, Progress { done: 4, total: 4, fps: 3, estimate_ms: 334 }),
    ];
    for (now, want) in expected {
        assert_eq!(q.on_event(IPCEvent::Frame, now), Directive::Continue);
        match view_of(&q, 0).status {
            TaskStatus::Rendering { progress } => assert_eq!(progress, want),
            _ => panic!("not rendering"),
        }
    }
}

#[test]
fn cancel_running_job_kills_worker_on_next_event() {
    let mut q = TaskQueue::new();
    q.post(info("a"));
    q.post(info("b"));
    q.start_next();
    q.on_event(IPCEvent::StartMixing, 0);
    q.cancel(0);
    assert!(matches!(view_of(&q, 0).status, TaskStatus::Mixing));
    assert_eq!(q.on_event(IPCEvent::StartRender(10), 5), Directive::Kill);
    assert!(matches!(view_of(&q, 0).status, TaskStatus::Canceled));
    assert_eq!(q.start_next(), Some(1));
}

#[test]
fn done_keeps_both_output_streams() {
    let mut q = TaskQueue::new();
    q.post(info("a"));
    q.start_next();
    q.finish_done(2500, "out text", "err text");
    match view_of(&q, 0).status {
        TaskStatus::Done { duration_ms, output } => {
            assert_eq!(duration_ms, 2500);
            assert_eq!(output, "[STDOUT]\nout text\n\n[STDERR]\nerr text");
        }
        _ => panic!("not done"),
    }
}

#[test]
fn abnormal_exit_fails_with_error_output() {
    let mut q = TaskQueue::new();
    q.post(info("a"));
    q.post(info("b"));
    q.start_next();
    q.on_exit(false, Some(-11), "segfault");
    match view_of(&q, 0).status {
        TaskStatus::Failed { error } => {
            assert_eq!(error, "Child process exited abnormally (Some(-11))\n\nsegfault")
        }
        _ => panic!("not failed"),
    }
    q.start_next();
    q.on_exit(false, None, "");
    match view_of(&q, 1).status {
        TaskStatus::Failed { error } => {
            assert_eq!(error, "Child process exited abnormally (None)\n\n")
        }
        _ => panic!("not failed"),
    }
}

#[test]
fn clean_exit_without_done_event_counts_as_done() {
    let mut q = TaskQueue::new();
    q.post(info("a"));
    q.start_next();
    q.on_event(IPCEvent::StartMixing, 0);
    q.on_exit(true, Some(0), "");
    match view_of(&q, 0).status {
        TaskStatus::Done { duration_ms, output } => {
            assert_eq!(duration_ms, 0);
            assert_eq!(output, "");
        }
        _ => panic!("not done"),
    }
}

#[test]
fn supervision_error_fails_job() {
    let mut q = TaskQueue::new();
    q.post(info("a"));
    q.start_next();
    q.fail_active("broken pipe".to_string());
    match view_of(&q, 0).status {
        TaskStatus::Failed { error } => assert_eq!(error, "broken pipe"),
        _ => panic!("not failed"),
    }
}

#[test]
fn cancel_finished_job_changes_nothing() {
    let mut q = TaskQueue::new();
    q.post(info("a"));
    q.start_next();
    q.finish_done(1, "", "");
    q.cancel(0);
    assert!(matches!(view_of(&q, 0).status, TaskStatus::Done { duration_ms: 1, .. }));
}
