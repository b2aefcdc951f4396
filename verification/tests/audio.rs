use gorillas::audio::{cue_schedule, EventQueue, NoteEvent, SoundCue};

const ALL_CUES: [SoundCue; 6] = [
    SoundCue::Intro,
    SoundCue::GorillaIntro,
    SoundCue::Throw,
    SoundCue::BuildingExplosion,
    SoundCue::GorillaExplosion,
    SoundCue::VictoryDance,
];

#[test]
fn sound_cue_all_variants_can_be_constructed() {
    let _ = [
        SoundCue::Intro,
        SoundCue::GorillaIntro,
        SoundCue::Throw,
        SoundCue::BuildingExplosion,
        SoundCue::GorillaExplosion,
        SoundCue::VictoryDance,
    ];
}

#[test]
fn intro_produces_18_events() {
    assert_eq!(cue_schedule(SoundCue::Intro).len(), 18);
}

#[test]
fn gorilla_intro_produces_120_events() {
    assert_eq!(cue_schedule(SoundCue::GorillaIntro).len(), 120);
}

#[test]
fn throw_produces_8_events() {
    assert_eq!(cue_schedule(SoundCue::Throw).len(), 8);
}

#[test]
fn building_explosion_produces_14_events() {
    assert_eq!(cue_schedule(SoundCue::BuildingExplosion).len(), 14);
}

#[test]
fn gorilla_explosion_produces_14_events() {
    assert_eq!(cue_schedule(SoundCue::GorillaExplosion).len(), 14);
}

#[test]
fn victory_dance_produces_112_events() {
    assert_eq!(cue_schedule(SoundCue::VictoryDance).len(), 112);
}

#[test]
fn all_cues_have_valid_midi_range() {
    for cue in ALL_CUES {
        for event in cue_schedule(cue) {
            assert!(event.midi <= 127, "MIDI {} out of range for {cue:?}", event.midi);
        }
    }
}

#[test]
fn note_off_fires_after_note_on_for_throw() {
    let events = cue_schedule(SoundCue::Throw);
    let ons: Vec<_> = events.iter().filter(|e| e.on).collect();
    let offs: Vec<_> = events.iter().filter(|e| !e.on).collect();
    for on in &ons {
        let has_later_off = offs
            .iter()
            .any(|off| off.midi == on.midi && off.at_us > on.at_us);
        assert!(has_later_off, "no NoteOff after NoteOn for midi {}", on.midi);
    }
}

#[test]
fn intro_schedule_starts_with_middle_c_and_releases_ten_ms_early() {
    let events = cue_schedule(SoundCue::Intro);
    assert_eq!((events[0].at_us, events[0].midi, events[0].on), (0, 48, true));
    assert_eq!((events[1].at_us, events[1].midi, events[1].on), (177_500, 48, false));
    assert_eq!((events[17].at_us, events[17].midi), (1_875_000 + 365_000, 48));
}

#[test]
fn victory_dance_repeats_the_explosion_melody_every_437500_us() {
    let dance = cue_schedule(SoundCue::VictoryDance);
    let unit = cue_schedule(SoundCue::BuildingExplosion);
    for rep in 0..8u64 {
        for k in 0..14 {
            let e = dance[rep as usize * 14 + k];
            assert_eq!(e.midi, unit[k].midi);
            assert_eq!(e.on, unit[k].on);
            assert_eq!(e.at_us, unit[k].at_us + rep * 437_500);
        }
    }
}

#[test]
fn gorilla_intro_phrases_start_2944444_us_apart() {
    let events = cue_schedule(SoundCue::GorillaIntro);
    assert_eq!((events[0].at_us, events[0].midi), (0, 59));
    assert_eq!((events[30].at_us, events[30].midi), (2_944_444, 63));
    assert_eq!((events[90].at_us, events[90].midi), (3 * 2_944_444, 71));
    assert_eq!(events[1].at_us, 212_222);
}

#[test]
fn play_schedules_a_cue_from_now() {
    let mut queue = EventQueue::new();
    queue.enqueue_after(SoundCue::Intro, 0);
    queue.play(SoundCue::Throw, 1_000);
    assert_eq!(queue.events.len(), 8);
    assert_eq!(queue.events[0], NoteEvent { at_us: 1_000, midi: 44, on: true });
    assert_eq!(queue.events[1], NoteEvent { at_us: 1_000 + 52_500, midi: 44, on: false });
}

#[test]
fn enqueue_after_waits_for_the_queued_events() {
    let mut queue = EventQueue::new();
    queue.enqueue_after(SoundCue::Throw, 500);
    // Empty queue: the cue starts at once.
    assert_eq!(queue.events[0].at_us, 500);
    let last = queue.events.iter().map(|e| e.at_us).max().unwrap();
    queue.enqueue_after(SoundCue::Intro, 600);
    assert_eq!(queue.events.len(), 8 + 18);
    assert_eq!(queue.events[8].at_us, last + 10_000);
    assert_eq!(queue.events[8].midi, 48);
}

#[test]
fn take_due_sends_due_events_once_in_order() {
    let mut queue = EventQueue::new();
    queue.play(SoundCue::Throw, 0);
    let due = queue.take_due(62_500);
    let times: Vec<u64> = due.iter().map(|e| e.at_us).collect();
    assert_eq!(times, vec![0, 52_500, 62_500]);
    assert_eq!(queue.events.len(), 5);
    assert!(queue.events.iter().all(|e| e.at_us > 62_500));
    assert!(queue.take_due(62_500).is_empty());
    assert_eq!(queue.take_due(u64::MAX).len(), 5);
    assert!(queue.events.is_empty());
}

#[test]
fn dispatch_plays_the_first_cue_and_queues_the_rest() {
    let mut queue = EventQueue::new();
    queue.play(SoundCue::VictoryDance, 0);
    let played = queue.dispatch(&vec![SoundCue::Intro, SoundCue::GorillaIntro], 1_000);
    assert!(played);
    assert_eq!(queue.events.len(), 18 + 120);
    assert_eq!(queue.events[0], NoteEvent { at_us: 1_000, midi: 48, on: true });
    let intro_end = queue.events[..18].iter().map(|e| e.at_us).max().unwrap();
    assert_eq!(queue.events[18].at_us, intro_end + 10_000);
    assert_eq!(queue.events[18].midi, 59);
}

#[test]
fn dispatching_no_cue_keeps_the_queue() {
    let mut queue = EventQueue::new();
    queue.play(SoundCue::Throw, 0);
    assert!(!queue.dispatch(&vec![], 5));
    assert_eq!(queue.events.len(), 8);
}
