use vstd::prelude::*;

verus! {

/// One event of the line-delimited stream that a render worker writes to its
/// supervisor.
#[derive(Clone, Copy, Debug, PartialEq, Eq, Structural)]
pub enum IPCEvent {
    /// The audio track is being mixed.
    StartMixing,
    /// Rendering starts; the payload is the number of frames to come.
    StartRender(u64),
    /// One more frame has been captured and encoded.
    Frame,
    /// The render finished; the payload is its wall-clock duration in
    /// milliseconds.
    Done(u64),
}

/// `n` frame events.
pub open spec fn frames(n: nat) -> Seq<IPCEvent>
    decreases n,
{
    if n == 0 {
        Seq::empty()
    } else {
        frames((n - 1) as nat).push(IPCEvent::Frame)
    }
}

/// The complete stream of a successful render of `n` frames that took
/// `duration_ms`.
pub open spec fn complete_trace(n: u64, duration_ms: u64) -> Seq<IPCEvent> {
    seq![IPCEvent::StartMixing, IPCEvent::StartRender(n)] + frames(n as nat) + seq![
        IPCEvent::Done(duration_ms),
    ]
}

} // verus!
