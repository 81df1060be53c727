use render_queue::capture::{frame_count, FrameStep, RenderRun};
use render_queue::progress::{Progress, ProgressMeter};
use render_queue::protocol::IPCEvent;

fn run_events(total: u64) -> (Vec<IPCEvent>, Vec<FrameStep>) {
    let (mut run, first) = RenderRun::start();
    let mut events = vec![first];
    events.push(run.begin_render(total));
    let mut steps = Vec::new();
    while run.has_next() {
        let (step, event) = run.capture_frame();
        steps.push(step);
        events.push(event);
    }
    events.push(run.finish(1234));
    (events, steps)
}

#[test]
fn successful_run_emits_one_frame_event_per_frame() {
    for n in [0u64, 1, 5] {
        let (events, steps) = run_events(n);
        assert_eq!(events.len() as u64, n + 3);
        assert_eq!(events[0], IPCEvent::StartMixing);
        assert_eq!(events[1], IPCEvent::StartRender(n));
        assert!(events[2..2 + n as usize].iter().all(|e| *e == IPCEvent::Frame));
        assert_eq!(*events.last().unwrap(), IPCEvent::Done(1234));
        assert_eq!(steps.len() as u64, n);
    }
}

#[test]
fn frames_rotate_through_the_readback_ring() {
    let (_, steps) = run_events(4);
    let slots: Vec<(u64, u64, u64)> = steps.iter().map(|s| (s.index, s.read_slot, s.map_slot)).collect();
    assert_eq!(slots, vec![(0, 0, 1), (1, 1, 2), (2, 2, 0), (3, 0, 1)]);
}

#[test]
fn frame_count_rounds_up() {
    // Ten seconds at 30 fps.
    assert_eq!(frame_count(441_000, 30), 300);
    // One audio frame more needs one video frame more.
    assert_eq!(frame_count(441_001, 30), 301);
    assert_eq!(frame_count(0, 60), 0);
    assert_eq!(frame_count(1, 1), 1);
}

#[test]
fn meter_refreshes_fps_once_per_second() {
    let mut m = ProgressMeter::new(10);
    assert_eq!(m.on_frame(0), Progress { done: 1, total: 10, fps: 0, estimate_ms: 9000 });
    assert_eq!(m.on_frame(999), Progress { done: 2, total: 10, fps: 0, estimate_ms: 8000 });
    // Second 1: all three frames are within the last second.
    assert_eq!(m.on_frame(1000), Progress { done: 3, total: 10, fps: 3, estimate_ms: 2334 });
    // Still second 1: no refresh.
    assert_eq!(m.on_frame(1500), Progress { done: 4, total: 10, fps: 3, estimate_ms: 2000 });
    // Second 2: frames at 999 and 1000 are more than a second old.
    assert_eq!(m.on_frame(2001), Progress { done: 5, total: 10, fps: 2, estimate_ms: 2500 });
    assert_eq!(m.window, vec![1500, 2001]);
}

#[test]
fn estimate_counts_at_least_one_frame() {
    let mut m = ProgressMeter::new(1);
    m.on_frame(5);
    m.on_frame(1005);
    let p = m.report();
    assert_eq!(p.done, 2);
    assert_eq!(p.fps, 2);
    assert_eq!(p.estimate_ms, 500);
}

#[test]
fn estimate_with_no_declared_frames() {
    let m = ProgressMeter::new(0);
    assert_eq!(m.report(), Progress { done: 0, total: 0, fps: 0, estimate_ms: 1000 });
}

#[test]
fn estimate_is_rounded_up_and_never_zero() {
    let m = ProgressMeter { total: 10, done: 9, window: vec![], last_fps_sec: 0, last_fps: 2000 };
    assert_eq!(m.report().estimate_ms, 1);
    let m = ProgressMeter { total: 10, done: 7, window: vec![], last_fps_sec: 0, last_fps: 7 };
    assert_eq!(m.report().estimate_ms, 429);
    let m = ProgressMeter { total: 10, done: 3, window: vec![], last_fps_sec: 0, last_fps: 7 };
    assert_eq!(m.report().estimate_ms, 1000);
}
