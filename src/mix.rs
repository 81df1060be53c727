use vstd::prelude::*;

use crate::SAMPLE_RATE;

verus! {

/// The category of a note, which picks its sound effect.
#[derive(Clone, Copy, Debug, PartialEq, Eq, Structural)]
pub enum NoteKind {
    Click,
    Hold,
    Drag,
    Flick,
}

/// The audio clips that the mix is made of.
#[derive(Clone, Copy, Debug, PartialEq, Eq, Structural)]
pub enum Clip {
    Music,
    Ending,
    Click,
    Drag,
    Flick,
}

/// One note as the mixer sees it: its kind, its time in audio frames from the
/// start of the chart, and whether it is a fake note (which makes no sound).
#[derive(Clone, Copy, Debug, PartialEq, Eq, Structural)]
pub struct NoteCue {
    pub kind: NoteKind,
    pub time: u64,
    pub fake: bool,
}

/// The lengths that shape the mix, all in audio frames (one frame is a
/// stereo pair of samples at 44100 Hz).
#[derive(Clone, Copy, Debug, PartialEq, Eq, Structural)]
pub struct MixTimes {
    /// Time before the chart starts.
    pub lead: u64,
    /// Time between the end of the track and the ending loop.
    pub tail: u64,
    /// Configured length of the ending loop.
    pub ending_length: u64,
    /// Length of the chart's music track.
    pub track: u64,
    /// The chart's offset when it is negative (its absolute value), else 0.
    pub negative_offset: u64,
    /// The chart's offset when it is positive, else 0.
    pub positive_offset: u64,
    pub ending_clip: u64,
    pub click_clip: u64,
    pub drag_clip: u64,
    pub flick_clip: u64,
}

/// One clip laid into the mix: `len` frames of `clip` added from frame
/// `start` on.
#[derive(Clone, Copy, Debug, PartialEq, Eq, Structural)]
pub struct Placement {
    pub clip: Clip,
    pub start: u64,
    pub len: u64,
}

/// Length of the mix in frames: lead, track, negative offset, one second of
/// padding, tail and ending.
pub open spec fn mix_length_spec(t: MixTimes) -> int {
    t.lead + t.track + t.negative_offset + SAMPLE_RATE + t.tail + t.ending_length
}

/// Where the ending loop begins: after the track, the padding and the tail.
pub open spec fn ending_start_spec(t: MixTimes) -> int {
    t.lead + t.track + t.negative_offset + SAMPLE_RATE + t.tail
}

/// How many frames a clip of `clip` frames placed at `start` writes into a
/// buffer of `total` frames: none from the end on, else as many as fit.
pub open spec fn place_len(start: int, clip: int, total: int) -> int {
    if start >= total {
        0
    } else if clip <= total - start {
        clip
    } else {
        total - start
    }
}

/// Whether placement `p` adds to frame `i`.
pub open spec fn covers(p: Placement, i: int) -> bool {
    p.start <= i < p.start + p.len
}

pub open spec fn sfx_of(kind: NoteKind) -> Clip {
    match kind {
        NoteKind::Click | NoteKind::Hold => Clip::Click,
        NoteKind::Drag => Clip::Drag,
        NoteKind::Flick => Clip::Flick,
    }
}

pub open spec fn clip_len_spec(t: MixTimes, c: Clip) -> int {
    match c {
        Clip::Music => t.track as int,
        Clip::Ending => t.ending_clip as int,
        Clip::Click => t.click_clip as int,
        Clip::Drag => t.drag_clip as int,
        Clip::Flick => t.flick_clip as int,
    }
}

/// The placement of a note's sound effect.
pub open spec fn note_placement(t: MixTimes, n: NoteCue) -> Placement {
    let start = t.lead + n.time + t.positive_offset;
    let clip = sfx_of(n.kind);
    Placement {
        clip,
        start: if start > u64::MAX { u64::MAX } else { start as u64 },
        len: place_len(start, clip_len_spec(t, clip), mix_length_spec(t)) as u64,
    }
}

/// One placement per note that is not fake, in the notes' order.
pub open spec fn note_plan(t: MixTimes, notes: Seq<NoteCue>) -> Seq<Placement>
    decreases notes.len(),
{
    if notes.len() == 0 {
        Seq::empty()
    } else {
        let rest = note_plan(t, notes.drop_last());
        let n = notes.last();
        if n.fake {
            rest
        } else {
            rest.push(note_placement(t, n))
        }
    }
}

/// Number of back-to-back copies of the ending clip, from the ending start
/// until the buffer is full.
pub open spec fn ending_count(t: MixTimes) -> int {
    let start = ending_start_spec(t);
    let total = mix_length_spec(t);
    if t.ending_clip == 0 || start >= total {
        0
    } else {
        (total - start + t.ending_clip - 1) / (t.ending_clip as int)
    }
}

/// The `k`-th copy of the ending clip.
pub open spec fn ending_placement(t: MixTimes, k: int) -> Placement {
    let start = ending_start_spec(t) + k * t.ending_clip;
    Placement {
        clip: Clip::Ending,
        start: start as u64,
        len: place_len(start, t.ending_clip as int, mix_length_spec(t)) as u64,
    }
}

/// The music track, placed after the lead and the negative offset.
pub open spec fn music_placement(t: MixTimes) -> Placement {
    let start = t.lead + t.negative_offset;
    Placement {
        clip: Clip::Music,
        start: start as u64,
        len: place_len(start, t.track as int, mix_length_spec(t)) as u64,
    }
}

/// The whole mix: the music, then the notes' sound effects, then the ending
/// loop.
pub open spec fn mix_plan_spec(t: MixTimes, notes: Seq<NoteCue>) -> Seq<Placement> {
    seq![music_placement(t)] + note_plan(t, notes) + Seq::new(
        ending_count(t) as nat,
        |k: int| ending_placement(t, k),
    )
}

/// How many frames a clip of `clip` frames placed at `start` writes into a
/// buffer of `total` frames.
pub fn place(start: u64, clip: u64, total: u64) -> (r: u64)
    ensures
        r == place_len(start as int, clip as int, total as int),
{
    if start >= total {
        0
    } else if clip <= total - start {
        clip
    } else {
        total - start
    }
}

fn clip_len(t: &MixTimes, c: Clip) -> (r: u64)
    ensures
        r == clip_len_spec(*t, c),
{
    match c {
        Clip::Music => t.track,
        Clip::Ending => t.ending_clip,
        Clip::Click => t.click_clip,
        Clip::Drag => t.drag_clip,
        Clip::Flick => t.flick_clip,
    }
}

fn sfx(kind: NoteKind) -> (r: Clip)
    ensures
        r == sfx_of(kind),
{
    match kind {
        NoteKind::Click | NoteKind::Hold => Clip::Click,
        NoteKind::Drag => Clip::Drag,
        NoteKind::Flick => Clip::Flick,
    }
}

/// Length of the mix in frames.
pub fn mix_length(t: &MixTimes) -> (r: u64)
    requires
        mix_length_spec(*t) <= u64::MAX,
    ensures
        r == mix_length_spec(*t),
{
    t.lead + t.track + t.negative_offset + SAMPLE_RATE + t.tail + t.ending_length
}

/// Lays out the mix: which clip is added where, and over how many frames.
/// Every placement ends within the buffer; one that would start past its end
/// writes nothing.
pub fn mix_plan(t: &MixTimes, notes: &Vec<NoteCue>) -> (r: Vec<Placement>)
    requires
        mix_length_spec(*t) <= u64::MAX,
    ensures
        r@ == mix_plan_spec(*t, notes@),
{
    let total = mix_length(t);
    let mut plan: Vec<Placement> = Vec::new();
    let music_start = t.lead + t.negative_offset;
    plan.push(Placement { clip: Clip::Music, start: music_start, len: place(music_start, t.track, total) });
    let mut i: usize = 0;
    while i < notes.len()
        invariant
            i <= notes@.len(),
            total == mix_length_spec(*t),
            mix_length_spec(*t) <= u64::MAX,
            plan@ == seq![music_placement(*t)] + note_plan(*t, notes@.subrange(0, i as int)),
        decreases notes@.len() - i,
    {
        let n = notes[i];
        assert(notes@.subrange(0, i + 1).drop_last() =~= notes@.subrange(0, i as int));
        if !n.fake {
            let clip = sfx(n.kind);
            let len = clip_len(t, clip);
            let start: u64 = if n.time > u64::MAX - t.lead || t.lead + n.time > u64::MAX - t.positive_offset {
                u64::MAX
            } else {
                t.lead + n.time + t.positive_offset
            };
            let placement = Placement { clip, start, len: place(start, len, total) };
            plan.push(placement);
            assert(plan@ =~= seq![music_placement(*t)] + note_plan(*t, notes@.subrange(0, i + 1)));
        } else {
            assert(plan@ =~= seq![music_placement(*t)] + note_plan(*t, notes@.subrange(0, i + 1)));
        }
        i = i + 1;
    }
    assert(notes@.subrange(0, notes@.len() as int) =~= notes@);
    let ghost head = plan@;
    let ending_start = t.lead + t.track + t.negative_offset + SAMPLE_RATE + t.tail;
    let e = t.ending_clip;
    let mut pos: u64 = ending_start;
    let mut k: u64 = 0;
    proof {
        if e > 0 && ending_start < total {
            lemma_ending_step(*t, 0);
        }
    }
    loop
        invariant
            total == mix_length_spec(*t),
            e == t.ending_clip,
            ending_start == ending_start_spec(*t),
            ending_start <= total,
            pos < total ==> pos == ending_start + k * e,
            pos <= total,
            k <= ending_count(*t),
            e > 0 && pos < total ==> k < ending_count(*t),
            (e == 0 || pos >= total) ==> k == ending_count(*t),
            plan@ == head + Seq::new(k as nat, |j: int| ending_placement(*t, j)),
        ensures
            k == ending_count(*t),
            plan@ == head + Seq::new(k as nat, |j: int| ending_placement(*t, j)),
        decreases total - pos,
    {
        let len = place(pos, e, total);
        if len == 0 {
            break;
        }
        plan.push(Placement { clip: Clip::Ending, start: pos, len });
        assert(plan@ =~= head + Seq::new((k + 1) as nat, |j: int| ending_placement(*t, j)));
        proof {
            lemma_ending_step(*t, k as int);
        }
        if len < e {
            pos = total;
        } else {
            pos = pos + e;
        }
        k = k + 1;
        assert(pos < total ==> pos == ending_start + k * e) by (nonlinear_arith)
            requires
                pos < total ==> pos == ending_start + (k - 1) * e + e,
        ;
    }
    assert(plan@ =~= mix_plan_spec(*t, notes@));
    plan
}

proof fn lemma_ending_step(t: MixTimes, k: int)
    requires
        t.ending_clip > 0,
        0 <= k,
        ending_start_spec(t) + k * t.ending_clip < mix_length_spec(t),
    ensures
        k < ending_count(t),
        ending_count(t) <= mix_length_spec(t),
        ({
            let next = ending_start_spec(t) + k * t.ending_clip + t.ending_clip;
            &&& next < mix_length_spec(t) ==> k + 1 < ending_count(t)
            &&& next >= mix_length_spec(t) ==> k + 1 == ending_count(t)
        }),
{
    let s = ending_start_spec(t);
    let total = mix_length_spec(t);
    let e = t.ending_clip as int;
    let d = total - s;
    assert(k * e < d);
    assert(ending_count(t) == (d + e - 1) / e);
    assert(k < (d + e - 1) / e) by (nonlinear_arith)
        requires k * e < d, e > 0, k >= 0;
    assert((d + e - 1) / e <= d) by (nonlinear_arith)
        requires e > 0, d > 0;
    assert(k * e + e < d ==> k + 1 < (d + e - 1) / e) by (nonlinear_arith)
        requires e > 0, k >= 0;
    assert(k * e + e >= d ==> k + 1 == (d + e - 1) / e) by (nonlinear_arith)
        requires e > 0, k >= 0, k * e < d;
}

/// Placing a clip at or past the end of a buffer writes nothing: no frame of
/// the buffer is touched.
pub proof fn lemma_place_past_end(clip: Clip, start: u64, clip_len: u64, total: u64)
    requires
        start >= total,
    ensures
        place_len(start as int, clip_len as int, total as int) == 0,
        forall|i: int|
            0 <= i < total ==> !#[trigger] covers(
                Placement { clip, start, len: place_len(start as int, clip_len as int, total as int) as u64 },
                i,
            ),
{
}

/// The plan depends on the lengths and the notes alone: two mixes of the same
/// job lay the same clips at the same frames over the same lengths.
pub proof fn lemma_mix_deterministic(t1: MixTimes, n1: Seq<NoteCue>, t2: MixTimes, n2: Seq<NoteCue>)
    requires
        t1 == t2,
        n1 == n2,
    ensures
        mix_plan_spec(t1, n1) == mix_plan_spec(t2, n2),
{
}

} // verus!
