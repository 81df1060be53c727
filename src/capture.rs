use vstd::prelude::*;

use crate::protocol::{complete_trace, frames, IPCEvent};
use crate::SAMPLE_RATE;

verus! {

/// Number of pixel transfer buffers in the readback ring.
pub const RING_SIZE: u64 = 3;

/// Number of video frames that cover `length` audio frames at `fps` frames per
/// second: the duration divided by the frame step, rounded up.
pub open spec fn frame_count_spec(length: u64, fps: u32) -> int {
    (length * fps + (SAMPLE_RATE - 1)) / SAMPLE_RATE as int
}

pub fn frame_count(length: u64, fps: u32) -> (r: u64)
    requires
        length * fps + (SAMPLE_RATE - 1) <= u64::MAX,
    ensures
        r == frame_count_spec(length, fps),
{
    let product: u64 = length * fps as u64;
    (product + (SAMPLE_RATE - 1)) / SAMPLE_RATE
}

/// What to do for one video frame: advance the engine to virtual time
/// `index / fps` seconds, render, start reading the frame into ring buffer
/// `read_slot`, and copy out the frame held in ring buffer `map_slot` from an
/// earlier step.
#[derive(Clone, Copy, Debug, PartialEq, Eq, Structural)]
pub struct FrameStep {
    pub index: u64,
    pub read_slot: u64,
    pub map_slot: u64,
}

enum Phase {
    Mixing,
    Rendering,
    Finished,
}

/// The render side of one job: the order of its steps and the events it
/// reports to the supervisor.
pub struct RenderRun {
    phase: Phase,
    total: u64,
    next: u64,
    emitted: Ghost<Seq<IPCEvent>>,
}

impl RenderRun {
    pub closed spec fn is_mixing(&self) -> bool {
        self.phase is Mixing
    }

    pub closed spec fn is_rendering(&self) -> bool {
        self.phase is Rendering
    }

    pub closed spec fn is_finished(&self) -> bool {
        self.phase is Finished
    }

    pub closed spec fn total(&self) -> u64 {
        self.total
    }

    /// The events reported so far, in order.
    pub closed spec fn emitted(&self) -> Seq<IPCEvent> {
        self.emitted@
    }

    /// Number of frames captured so far.
    pub closed spec fn captured(&self) -> u64 {
        self.next
    }

    pub closed spec fn wf(&self) -> bool {
        &&& self.next <= self.total
        &&& (self.phase is Mixing ==> self.emitted@ == seq![IPCEvent::StartMixing])
        &&& (self.phase is Rendering ==> self.emitted@ == seq![
            IPCEvent::StartMixing,
            IPCEvent::StartRender(self.total),
        ] + frames(self.next as nat))
    }

    /// Starts a run; the first event reports that mixing has begun.
    pub fn start() -> (r: (RenderRun, IPCEvent))
        ensures
            r.0.wf(),
            r.0.is_mixing(),
            r.1 == IPCEvent::StartMixing,
            r.0.emitted() == seq![r.1],
    {
        let ghost first = seq![IPCEvent::StartMixing];
        (
            RenderRun { phase: Phase::Mixing, total: 0, next: 0, emitted: Ghost(first) },
            IPCEvent::StartMixing,
        )
    }

    /// The mix is done and `total` frames are about to be rendered.
    pub fn begin_render(&mut self, total: u64) -> (r: IPCEvent)
        requires
            old(self).wf(),
            old(self).is_mixing(),
        ensures
            final(self).wf(),
            final(self).is_rendering(),
            final(self).total() == total,
            final(self).captured() == 0,
            r == IPCEvent::StartRender(total),
            final(self).emitted() == old(self).emitted().push(r),
    {
        self.phase = Phase::Rendering;
        self.total = total;
        self.next = 0;
        self.emitted = Ghost(self.emitted@.push(IPCEvent::StartRender(total)));
        assert(self.emitted@ =~= seq![IPCEvent::StartMixing, IPCEvent::StartRender(total)]
            + frames(0));
        IPCEvent::StartRender(total)
    }

    pub fn has_next(&self) -> (r: bool)
        requires
            self.wf(),
            self.is_rendering(),
        ensures
            r == (self.captured() < self.total()),
    {
        self.next < self.total
    }

    /// The next frame to capture, and the event to send once it is written.
    /// Frame `i` is read into buffer `i % 3` and copied out of buffer
    /// `(i + 1) % 3`, whose read was issued two steps earlier.
    pub fn capture_frame(&mut self) -> (r: (FrameStep, IPCEvent))
        requires
            old(self).wf(),
            old(self).is_rendering(),
            old(self).captured() < old(self).total(),
        ensures
            final(self).wf(),
            final(self).is_rendering(),
            final(self).total() == old(self).total(),
            final(self).captured() == old(self).captured() + 1,
            r.0.index == old(self).captured(),
            r.0.read_slot == old(self).captured() % RING_SIZE,
            r.0.map_slot == (old(self).captured() + 1) % RING_SIZE as int,
            r.1 == IPCEvent::Frame,
            final(self).emitted() == old(self).emitted().push(r.1),
    {
        let index = self.next;
        let step = FrameStep { index, read_slot: index % RING_SIZE, map_slot: (index % RING_SIZE + 1) % RING_SIZE };
        self.next = index + 1;
        self.emitted = Ghost(self.emitted@.push(IPCEvent::Frame));
        assert(self.emitted@ =~= seq![IPCEvent::StartMixing, IPCEvent::StartRender(self.total)]
            + frames(self.next as nat));
        assert(((index as int) % 3 + 1) % 3 == ((index as int) + 1) % 3) by (nonlinear_arith);
        (step, IPCEvent::Frame)
    }

    /// All frames were captured; reports the render's duration. The events
    /// of the whole run are then the start of mixing, the start of rendering
    /// with the frame count, one frame event per frame, and the end.
    pub fn finish(&mut self, duration_ms: u64) -> (r: IPCEvent)
        requires
            old(self).wf(),
            old(self).is_rendering(),
            old(self).captured() == old(self).total(),
        ensures
            final(self).is_finished(),
            r == IPCEvent::Done(duration_ms),
            final(self).emitted() == complete_trace(old(self).total(), duration_ms),
    {
        self.phase = Phase::Finished;
        self.emitted = Ghost(self.emitted@.push(IPCEvent::Done(duration_ms)));
        assert(self.emitted@ =~= complete_trace(self.total, duration_ms));
        IPCEvent::Done(duration_ms)
    }
}

} // verus!
