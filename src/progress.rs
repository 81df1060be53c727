use vstd::prelude::*;

verus! {

/// Width of the sliding window of frame timestamps, in milliseconds.
pub const WINDOW_MS: u64 = 1000;

/// Drops timestamps from the front of the window while they are more than one
/// second older than `now`.
pub open spec fn prune(w: Seq<u64>, now: u64) -> Seq<u64>
    decreases w.len(),
{
    if w.len() > 0 && w[0] + WINDOW_MS < now {
        prune(w.drop_first(), now)
    } else {
        w
    }
}

/// Remaining-time estimate in milliseconds, rounded up: at least one frame is
/// always counted as remaining, and a zero frame rate is read as one frame per
/// second.
pub open spec fn estimate_spec(total: u64, done: u64, fps: u64) -> u64 {
    let remaining: int = if total > done { total - done } else { 1 };
    let scaled: int = remaining * 1000;
    let scaled: int = if scaled > u64::MAX { u64::MAX as int } else { scaled };
    let fps: int = if fps == 0 { 1 } else { fps as int };
    (scaled / fps + if scaled % fps == 0 { 0int } else { 1int }) as u64
}

/// The estimate is never zero.
pub proof fn lemma_estimate_positive(total: u64, done: u64, fps: u64)
    ensures
        estimate_spec(total, done, fps) >= 1,
{
    let remaining: int = if total > done { total - done } else { 1 };
    let scaled0: int = remaining * 1000;
    let scaled: int = if scaled0 > u64::MAX { u64::MAX as int } else { scaled0 };
    let f: int = if fps == 0 { 1 } else { fps as int };
    assert(scaled >= 1000);
    assert(scaled / f + (if scaled % f == 0 { 0int } else { 1int }) >= 1) by (nonlinear_arith)
        requires scaled >= 1000, f >= 1;
    assert(scaled / f + (if scaled % f == 0 { 0int } else { 1int }) <= u64::MAX) by (nonlinear_arith)
        requires scaled >= 1000, f >= 1, scaled <= u64::MAX;
}

/// Frame rate and remaining-time estimator of one render, fed with the
/// wall-clock time (milliseconds since the render started) of each completed
/// frame.
pub struct ProgressMeter {
    pub total: u64,
    pub done: u64,
    pub window: Vec<u64>,
    pub last_fps_sec: u64,
    pub last_fps: u64,
}

/// One progress report: `done` of `total` frames, the frame rate and the
/// estimated remaining time in milliseconds.
#[derive(Clone, Copy, Debug, PartialEq, Eq, Structural)]
pub struct Progress {
    pub done: u64,
    pub total: u64,
    pub fps: u64,
    pub estimate_ms: u64,
}

/// The state of a meter, with its window as a sequence.
pub struct MeterModel {
    pub total: u64,
    pub done: u64,
    pub window: Seq<u64>,
    pub last_fps_sec: u64,
    pub last_fps: u64,
}

impl View for ProgressMeter {
    type V = MeterModel;

    open spec fn view(&self) -> MeterModel {
        MeterModel {
            total: self.total,
            done: self.done,
            window: self.window@,
            last_fps_sec: self.last_fps_sec,
            last_fps: self.last_fps,
        }
    }
}

/// A fresh meter for `total` frames.
pub open spec fn start_model(total: u64) -> MeterModel {
    MeterModel { total, done: 0, window: Seq::empty(), last_fps_sec: 0, last_fps: 0 }
}

/// The meter after one more frame completed at `now`: the frame is counted,
/// the window keeps the last second, and the frame rate is refreshed when
/// `now` is in another whole second than the last refresh.
pub open spec fn frame_step(m: MeterModel, now: u64) -> MeterModel {
    let w = prune(m.window.push(now), now);
    let sec = now / 1000;
    MeterModel {
        total: m.total,
        done: if m.done == u64::MAX { u64::MAX } else { (m.done + 1) as u64 },
        window: w,
        last_fps_sec: if sec != m.last_fps_sec { sec } else { m.last_fps_sec },
        last_fps: if sec != m.last_fps_sec { w.len() as u64 } else { m.last_fps },
    }
}

/// The meter after frames completed at each of `times`, in order.
pub open spec fn replay(m: MeterModel, times: Seq<u64>) -> MeterModel
    decreases times.len(),
{
    if times.len() == 0 {
        m
    } else {
        frame_step(replay(m, times.drop_last()), times.last())
    }
}

/// The report of a meter state.
pub open spec fn report_of(m: MeterModel) -> Progress {
    Progress {
        done: m.done,
        total: m.total,
        fps: m.last_fps,
        estimate_ms: estimate_spec(m.total, m.done, m.last_fps),
    }
}

/// After the `k`-th frame of a render of `total` frames, the report says `k`
/// of `total` frames are done, whatever the frames' times, and the remaining
/// time it gives is at least one millisecond.
pub proof fn lemma_kth_frame_progress(total: u64, times: Seq<u64>)
    requires
        times.len() < u64::MAX,
    ensures
        report_of(replay(start_model(total), times)).done == times.len(),
        report_of(replay(start_model(total), times)).total == total,
        report_of(replay(start_model(total), times)).estimate_ms >= 1,
    decreases times.len(),
{
    let m = replay(start_model(total), times);
    lemma_estimate_positive(m.total, m.done, m.last_fps);
    if times.len() > 0 {
        lemma_kth_frame_progress(total, times.drop_last());
    }
}

impl ProgressMeter {
    pub fn new(total: u64) -> (r: Self)
        ensures
            r@ == start_model(total),
    {
        ProgressMeter { total, done: 0, window: Vec::new(), last_fps_sec: 0, last_fps: 0 }
    }

    /// The report for the current state.
    pub open spec fn report_spec(&self) -> Progress {
        report_of(self@)
    }

    pub fn report(&self) -> (r: Progress)
        ensures
            r == self.report_spec(),
            r.estimate_ms >= 1,
    {
        let remaining: u64 = if self.total > self.done { self.total - self.done } else { 1 };
        let scaled: u64 = if remaining > u64::MAX / 1000 { u64::MAX } else { remaining * 1000 };
        let fps: u64 = if self.last_fps == 0 { 1 } else { self.last_fps };
        let whole: u64 = scaled / fps;
        proof {
            lemma_estimate_positive(self.total, self.done, self.last_fps);
            assert(whole <= scaled) by (nonlinear_arith)
                requires whole == scaled / fps, fps >= 1, scaled >= 0;
            assert(whole < u64::MAX || scaled % fps == 0) by (nonlinear_arith)
                requires whole == scaled / fps, fps >= 1, scaled <= u64::MAX, scaled >= 1000;
        }
        let estimate_ms: u64 = if scaled % fps == 0 { whole } else { whole + 1 };
        Progress { done: self.done, total: self.total, fps: self.last_fps, estimate_ms }
    }

    /// Records one completed frame at `now_ms` and returns the new report.
    /// The frame rate is the number of frames in the last second, refreshed
    /// only when `now_ms` falls in another whole second than the last refresh.
    pub fn on_frame(&mut self, now_ms: u64) -> (r: Progress)
        ensures
            final(self)@ == frame_step(old(self)@, now_ms),
            r == final(self).report_spec(),
    {
        if self.done < u64::MAX {
            self.done = self.done + 1;
        }
        self.window.push(now_ms);
        proof {
            assert(prune(self.window@, now_ms) == prune(old(self).window@.push(now_ms), now_ms));
        }
        while self.window.len() > 0 && self.window[0] < now_ms && now_ms - self.window[0]
            > WINDOW_MS
            invariant
                prune(self.window@, now_ms) == prune(old(self).window@.push(now_ms), now_ms),
                self.total == old(self).total,
                self.done == if old(self).done == u64::MAX { u64::MAX } else {
                    (old(self).done + 1) as u64
                },
                self.last_fps_sec == old(self).last_fps_sec,
                self.last_fps == old(self).last_fps,
            decreases self.window@.len(),
        {
            let ghost w = self.window@;
            self.window.remove(0);
            assert(self.window@ =~= w.drop_first());
        }
        assert(prune(self.window@, now_ms) == self.window@);
        let sec: u64 = now_ms / 1000;
        if sec != self.last_fps_sec {
            self.last_fps = self.window.len() as u64;
            self.last_fps_sec = sec;
        }
        assert(self@ =~= frame_step(old(self)@, now_ms));
        self.report()
    }
}

} // verus!
