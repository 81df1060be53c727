use render_queue::mix::{mix_length, mix_plan, place, Clip, MixTimes, NoteCue, NoteKind, Placement};
use render_queue::SAMPLE_RATE;

fn times() -> MixTimes {
    MixTimes {
        lead: 100,
        tail: 50,
        ending_length: 300,
        track: 1000,
        negative_offset: 0,
        positive_offset: 20,
        ending_clip: 120,
        click_clip: 10,
        drag_clip: 20,
        flick_clip: 30,
    }
}

fn notes() -> Vec<NoteCue> {
    vec![
        NoteCue { kind: NoteKind::Click, time: 0, fake: false },
        NoteCue { kind: NoteKind::Drag, time: 10, fake: true },
        NoteCue { kind: NoteKind::Flick, time: 45_600, fake: false },
        NoteCue { kind: NoteKind::Hold, time: 500, fake: false },
        NoteCue { kind: NoteKind::Drag, time: 45_400, fake: false },
    ]
}

fn p(clip: Clip, start: u64, len: u64) -> Placement {
    Placement { clip, start, len }
}

#[test]
fn length_adds_lead_track_padding_tail_and_ending() {
    assert_eq!(mix_length(&times()), 100 + 1000 + SAMPLE_RATE + 50 + 300);
    let mut t = times();
    t.negative_offset = 700;
    assert_eq!(mix_length(&t), 45_550 + 700);
}

#[test]
fn plan_places_music_notes_and_ending_loop() {
    let plan = mix_plan(&times(), &notes());
    assert_eq!(
        plan,
        vec![
            p(Clip::Music, 100, 1000),
            p(Clip::Click, 120, 10),
            p(Clip::Flick, 45_720, 0),
            p(Clip::Click, 620, 10),
            p(Clip::Drag, 45_520, 20),
            p(Clip::Ending, 45_250, 120),
            p(Clip::Ending, 45_370, 120),
            p(Clip::Ending, 45_490, 60),
        ]
    );
}

#[test]
fn negative_offset_delays_the_music() {
    let mut t = times();
    t.negative_offset = 700;
    t.positive_offset = 0;
    let plan = mix_plan(&t, &vec![]);
    assert_eq!(plan[0], p(Clip::Music, 800, 1000));
    assert_eq!(plan[1], p(Clip::Ending, 45_950, 120));
}

#[test]
fn empty_ending_clip_is_not_looped() {
    let mut t = times();
    t.ending_clip = 0;
    let plan = mix_plan(&t, &vec![]);
    assert_eq!(plan, vec![p(Clip::Music, 100, 1000)]);
}

#[test]
fn placement_past_end_writes_nothing() {
    assert_eq!(place(45_550, 100, 45_550), 0);
    assert_eq!(place(90_000, 100, 45_550), 0);
    assert_eq!(place(45_500, 100, 45_550), 50);
    assert_eq!(place(0, 100, 45_550), 100);
}

#[test]
fn mixing_twice_gives_the_same_plan() {
    assert_eq!(mix_plan(&times(), &notes()), mix_plan(&times(), &notes()));
}

#[test]
fn ten_second_track_scenario_lengths() {
    // A ten second track with five notes, the mix then cut into frames at 30 fps.
    let t = MixTimes {
        lead: 0,
        tail: 0,
        ending_length: 0,
        track: 10 * SAMPLE_RATE,
        negative_offset: 0,
        positive_offset: 0,
        ending_clip: 1000,
        click_clip: 100,
        drag_clip: 100,
        flick_clip: 100,
    };
    let cues: Vec<NoteCue> = (0..5)
        .map(|i| NoteCue { kind: NoteKind::Click, time: i * SAMPLE_RATE, fake: false })
        .collect();
    let plan = mix_plan(&t, &cues);
    assert_eq!(plan.len(), 1 + 5);
    assert_eq!(plan[5], p(Clip::Click, 4 * SAMPLE_RATE, 100));
    let length = mix_length(&t);
    assert_eq!(length, 11 * SAMPLE_RATE);
    assert_eq!(render_queue::capture::frame_count(length, 30), 330);
}
