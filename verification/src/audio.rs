//! Sound cues and their note schedules. Each cue is a melody from one of the
//! game's `PLAY` statements, written out as note-on / note-off events at
//! microsecond offsets from the moment the cue starts.

use vstd::prelude::*;

verus! {

/// A named sound effect of the game.
#[derive(Clone, Copy, Debug, PartialEq, Eq)]
pub enum SoundCue {
    /// Title melody, in music-macro notation `T160O1L8CDEDCDL4ECC`.
    Intro,
    /// The four phrases played while the gorillas are introduced.
    GorillaIntro,
    /// Banana throw, `O0L32A-L64CL16BL64A+`.
    Throw,
    /// Banana hitting a building, `O0L32EFGEFDC`.
    BuildingExplosion,
    /// Banana hitting a gorilla, `O0L16EFGEFDC`.
    GorillaExplosion,
    /// Victory dance, `O0L32EFGEFDC` eight times.
    VictoryDance,
}

/// One scheduled MIDI event: a note starts (`on`) or stops at `at_us`
/// microseconds after the cue starts.
#[derive(Clone, Copy, Debug, PartialEq, Eq)]
pub struct NoteEvent {
    pub at_us: u64,
    pub midi: u8,
    pub on: bool,
}

/// Notes of the title melody: `(start µs, MIDI note, length µs)`, tempo 160, octave 1.
pub const INTRO_NOTES: [(u64, u8, u64); 9] = [
    (0, 48, 187_500),
    (187_500, 50, 187_500),
    (375_000, 52, 187_500),
    (562_500, 50, 187_500),
    (750_000, 48, 187_500),
    (937_500, 50, 187_500),
    (1_125_000, 52, 375_000),
    (1_500_000, 48, 375_000),
    (1_875_000, 48, 375_000),
];

/// Notes of the throw sound, tempo 120, octave 0.
pub const THROW_NOTES: [(u64, u8, u64); 4] = [
    (0, 44, 62_500),
    (62_500, 36, 31_250),
    (93_750, 47, 125_000),
    (218_750, 46, 31_250),
];

/// Notes of the building explosion; also one repetition of the victory dance.
pub const BUILDING_EXPLOSION_NOTES: [(u64, u8, u64); 7] = [
    (0, 40, 62_500),
    (62_500, 41, 62_500),
    (125_000, 43, 62_500),
    (187_500, 40, 62_500),
    (250_000, 41, 62_500),
    (312_500, 38, 62_500),
    (375_000, 36, 62_500),
];

/// Notes of the gorilla explosion: the building melody at half speed.
pub const GORILLA_EXPLOSION_NOTES: [(u64, u8, u64); 7] = [
    (0, 40, 125_000),
    (125_000, 41, 125_000),
    (250_000, 43, 125_000),
    (375_000, 40, 125_000),
    (500_000, 41, 125_000),
    (625_000, 38, 125_000),
    (750_000, 36, 125_000),
];

/// Length of one victory dance repetition in microseconds.
pub const VICTORY_UNIT_DUR_US: u64 = 437_500;

/// Number of repetitions of the victory dance melody.
pub const VICTORY_REPEATS: u64 = 8;

/// Slot timing shared by the four gorilla intro phrases: `(start µs, length µs)`.
pub const GORILLA_INTRO_TIMING: [(u64, u64); 15] = [
    (0, 222_222),
    (347_222, 125_000),
    (472_222, 125_000),
    (597_222, 125_000),
    (847_222, 125_000),
    (1_097_222, 125_000),
    (1_347_222, 125_000),
    (1_472_222, 125_000),
    (1_597_222, 125_000),
    (1_722_222, 125_000),
    (1_972_222, 222_222),
    (2_319_444, 125_000),
    (2_444_444, 125_000),
    (2_569_444, 125_000),
    (2_819_444, 125_000),
];

/// Length of one gorilla intro phrase in microseconds.
pub const GORILLA_INTRO_PHRASE_DUR_US: u64 = 2_944_444;

/// MIDI notes of the four gorilla intro phrases, one per timing slot.
pub const GORILLA_INTRO_PHRASES: [[u8; 15]; 4] = [
    [59, 59, 57, 57, 59, 59, 59, 57, 57, 57, 59, 59, 57, 57, 59],
    [63, 63, 61, 61, 63, 63, 63, 61, 61, 61, 63, 63, 61, 61, 63],
    [66, 66, 64, 64, 66, 66, 66, 64, 64, 64, 66, 66, 64, 64, 66],
    [71, 71, 69, 69, 66, 66, 66, 64, 64, 64, 59, 59, 57, 57, 59],
];

/// Gap between a note's release and the next note: each note stops 10 ms
/// before its nominal length ends.
pub open spec fn held_us(dur_us: u64) -> int {
    if dur_us >= 10_000 {
        dur_us - 10_000
    } else {
        0
    }
}

/// The on/off event pair of note `k / 2` of `notes`, shifted by `offset` µs;
/// even positions are note-on events, odd positions the matching note-off.
pub open spec fn note_event(notes: Seq<(u64, u8, u64)>, offset: int, k: int) -> NoteEvent {
    let (on_us, midi, dur_us) = notes[k / 2];
    if k % 2 == 0 {
        NoteEvent { at_us: (offset + on_us) as u64, midi, on: true }
    } else {
        NoteEvent { at_us: (offset + on_us + held_us(dur_us)) as u64, midi, on: false }
    }
}

/// The events of a plain note table started `offset` µs after the cue.
pub open spec fn table_events(notes: Seq<(u64, u8, u64)>, offset: int) -> Seq<NoteEvent> {
    Seq::new(2 * notes.len(), |k: int| note_event(notes, offset, k))
}

/// Event `k` of the gorilla intro: phrase `k / 30`, slot `(k % 30) / 2`.
pub open spec fn gorilla_intro_event(k: int) -> NoteEvent {
    let phrase = k / 30;
    let slot = (k % 30) / 2;
    let (slot_us, dur_us) = GORILLA_INTRO_TIMING@[slot];
    let midi = GORILLA_INTRO_PHRASES@[phrase]@[slot];
    let on_us = phrase * GORILLA_INTRO_PHRASE_DUR_US + slot_us;
    if k % 2 == 0 {
        NoteEvent { at_us: on_us as u64, midi, on: true }
    } else {
        NoteEvent { at_us: (on_us + held_us(dur_us)) as u64, midi, on: false }
    }
}

/// Event `k` of the victory dance: repetition `k / 14` of the explosion melody.
pub open spec fn victory_dance_event(k: int) -> NoteEvent {
    note_event(BUILDING_EXPLOSION_NOTES@, (k / 14) * VICTORY_UNIT_DUR_US, k % 14)
}

/// The complete event schedule of a cue.
pub open spec fn cue_events(cue: SoundCue) -> Seq<NoteEvent> {
    match cue {
        SoundCue::Intro => table_events(INTRO_NOTES@, 0),
        SoundCue::GorillaIntro => Seq::new(120, |k: int| gorilla_intro_event(k)),
        SoundCue::Throw => table_events(THROW_NOTES@, 0),
        SoundCue::BuildingExplosion => table_events(BUILDING_EXPLOSION_NOTES@, 0),
        SoundCue::GorillaExplosion => table_events(GORILLA_EXPLOSION_NOTES@, 0),
        SoundCue::VictoryDance => Seq::new(112, |k: int| victory_dance_event(k)),
    }
}

fn held(dur_us: u64) -> (h: u64)
    ensures
        h == held_us(dur_us),
{
    if dur_us >= 10_000 {
        dur_us - 10_000
    } else {
        0
    }
}

/// Appends the events of `notes`, shifted by `offset` µs, to `out`.
fn push_notes(out: &mut Vec<NoteEvent>, offset: u64, notes: &[(u64, u8, u64)])
    requires
        forall|i: int|
            0 <= i < notes@.len() ==> offset + (#[trigger] notes@[i]).0 + notes@[i].2 <= u64::MAX,
    ensures
        final(out)@ == old(out)@ + table_events(notes@, offset as int),
{
    let ghost start = out@;
    let mut i: usize = 0;
    while i < notes.len()
        invariant
            i <= notes@.len(),
            forall|j: int|
                0 <= j < notes@.len() ==> offset + (#[trigger] notes@[j]).0 + notes@[j].2
                    <= u64::MAX,
            out@ =~= start + table_events(notes@, offset as int).subrange(0, 2 * i as int),
        decreases notes@.len() - i,
    {
        let (on_us, midi, dur_us) = notes[i];
        let on_t = offset + on_us;
        let off_t = on_t + held(dur_us);
        out.push(NoteEvent { at_us: on_t, midi, on: true });
        out.push(NoteEvent { at_us: off_t, midi, on: false });
        proof {
            let ev = table_events(notes@, offset as int);
            assert(ev[2 * i as int] == NoteEvent { at_us: on_t, midi, on: true });
            assert(ev[2 * i as int + 1] == NoteEvent { at_us: off_t, midi, on: false });
        }
        i = i + 1;
    }
}

/// The note events of `cue`, in playing order, as offsets from its start.
pub fn cue_schedule(cue: SoundCue) -> (events: Vec<NoteEvent>)
    ensures
        events@ == cue_events(cue),
{
    let mut events: Vec<NoteEvent> = Vec::new();
    match cue {
        SoundCue::Intro => {
            push_notes(&mut events, 0, &INTRO_NOTES);
        },
        SoundCue::GorillaIntro => {
            let mut phrase: usize = 0;
            while phrase < 4
                invariant
                    phrase <= 4,
                    events@ =~= Seq::new(120, |k: int| gorilla_intro_event(k)).subrange(
                        0,
                        30 * phrase as int,
                    ),
                decreases 4 - phrase,
            {
                let phrase_start = phrase as u64 * GORILLA_INTRO_PHRASE_DUR_US;
                let mut slot: usize = 0;
                while slot < 15
                    invariant
                        phrase < 4,
                        slot <= 15,
                        phrase_start == phrase * GORILLA_INTRO_PHRASE_DUR_US,
                        events@ =~= Seq::new(120, |k: int| gorilla_intro_event(k)).subrange(
                            0,
                            30 * phrase + 2 * slot,
                        ),
                    decreases 15 - slot,
                {
                    let (slot_us, dur_us) = GORILLA_INTRO_TIMING[slot];
                    let midi = GORILLA_INTRO_PHRASES[phrase][slot];
                    let on_t = phrase_start + slot_us;
                    let off_t = on_t + held(dur_us);
                    events.push(NoteEvent { at_us: on_t, midi, on: true });
                    events.push(NoteEvent { at_us: off_t, midi, on: false });
                    proof {
                        let k = 30 * phrase + 2 * slot;
                        assert(k / 30 == phrase && (k % 30) / 2 == slot && k % 2 == 0);
                        assert((k + 1) / 30 == phrase && ((k + 1) % 30) / 2 == slot && (k + 1) % 2
                            == 1);
                    }
                    slot = slot + 1;
                }
                phrase = phrase + 1;
            }
        },
        SoundCue::Throw => {
            push_notes(&mut events, 0, &THROW_NOTES);
        },
        SoundCue::BuildingExplosion => {
            push_notes(&mut events, 0, &BUILDING_EXPLOSION_NOTES);
        },
        SoundCue::GorillaExplosion => {
            push_notes(&mut events, 0, &GORILLA_EXPLOSION_NOTES);
        },
        SoundCue::VictoryDance => {
            let mut rep: u64 = 0;
            while rep < VICTORY_REPEATS
                invariant
                    rep <= VICTORY_REPEATS,
                    events@ =~= Seq::new(112, |k: int| victory_dance_event(k)).subrange(
                        0,
                        14 * rep as int,
                    ),
                decreases VICTORY_REPEATS - rep,
            {
                let offset = rep * VICTORY_UNIT_DUR_US;
                let ghost before = events@;
                push_notes(&mut events, offset, &BUILDING_EXPLOSION_NOTES);
                proof {
                    assert forall|k: int| 0 <= k < 14 implies (#[trigger] table_events(
                        BUILDING_EXPLOSION_NOTES@,
                        offset as int,
                    )[k]) == victory_dance_event(14 * rep + k) by {
                        assert((14 * rep + k) / 14 == rep);
                        assert((14 * rep + k) % 14 == k);
                    }
                }
                rep = rep + 1;
            }
        },
    }
    events
}

/// The explosion melody `EFGEFDC` in octave 0, as MIDI notes.
pub open spec fn explosion_melody() -> Seq<u8> {
    seq![40u8, 41, 43, 40, 41, 38, 36]
}

/// `events` plays `melody` note after note from time 0, every note lasting
/// `note_us`: note `j` starts at `j * note_us` and is released 10 ms before
/// the next note starts.
pub open spec fn plays_evenly(events: Seq<NoteEvent>, melody: Seq<u8>, note_us: int) -> bool {
    &&& events.len() == 2 * melody.len()
    &&& forall|j: int|
        0 <= j < melody.len() ==> #[trigger] events[2 * j] == (NoteEvent {
            at_us: (j * note_us) as u64,
            midi: melody[j],
            on: true,
        }) && events[2 * j + 1] == (NoteEvent {
            at_us: (j * note_us + note_us - 10_000) as u64,
            midi: melody[j],
            on: false,
        })
}

/// The explosion sounds: a building hit plays `EFGEFDC` in 32nd notes
/// (62.5 ms each), a gorilla hit plays the same melody in 16th notes
/// (125 ms each), twice as slow, and the victory dance plays the building
/// melody eight times, one repetition every 437.5 ms.
pub proof fn lemma_explosion_schedules()
    ensures
        plays_evenly(cue_events(SoundCue::BuildingExplosion), explosion_melody(), 62_500),
        plays_evenly(cue_events(SoundCue::GorillaExplosion), explosion_melody(), 125_000),
        cue_events(SoundCue::VictoryDance).len() == 8 * cue_events(SoundCue::BuildingExplosion).len(),
        forall|r: int, k: int|
            0 <= r < 8 && 0 <= k < 14 ==> #[trigger] cue_events(SoundCue::VictoryDance)[14 * r + k]
                == (NoteEvent {
                at_us: (r * 437_500 + cue_events(SoundCue::BuildingExplosion)[k].at_us) as u64,
                ..cue_events(SoundCue::BuildingExplosion)[k]
            }),
{
    let m = explosion_melody();
    let b = cue_events(SoundCue::BuildingExplosion);
    let g = cue_events(SoundCue::GorillaExplosion);
    assert forall|j: int| 0 <= j < 7 implies #[trigger] b[2 * j] == (NoteEvent {
        at_us: (j * 62_500) as u64,
        midi: m[j],
        on: true,
    }) && b[2 * j + 1] == (NoteEvent {
        at_us: (j * 62_500 + 62_500 - 10_000) as u64,
        midi: m[j],
        on: false,
    }) by {
        assert((2 * j) / 2 == j && (2 * j + 1) / 2 == j && (2 * j) % 2 == 0 && (2 * j + 1) % 2 == 1);
        assert(0 <= j < 7);
    }
    assert forall|j: int| 0 <= j < 7 implies #[trigger] g[2 * j] == (NoteEvent {
        at_us: (j * 125_000) as u64,
        midi: m[j],
        on: true,
    }) && g[2 * j + 1] == (NoteEvent {
        at_us: (j * 125_000 + 125_000 - 10_000) as u64,
        midi: m[j],
        on: false,
    }) by {
        assert((2 * j) / 2 == j && (2 * j + 1) / 2 == j && (2 * j) % 2 == 0 && (2 * j + 1) % 2 == 1);
    }
    assert forall|r: int, k: int|
        0 <= r < 8 && 0 <= k < 14 implies #[trigger] cue_events(SoundCue::VictoryDance)[14 * r + k]
        == (NoteEvent { at_us: (r * 437_500 + b[k].at_us) as u64, ..b[k] }) by {
        assert((14 * r + k) / 14 == r);
        assert((14 * r + k) % 14 == k);
        assert(0 <= k / 2 < 7);
    }
}

/// Start of note `j` when notes of the given lengths follow each other
/// without a pause from time 0.
pub open spec fn legato_start(lengths: Seq<int>, j: int) -> int
    decreases j,
{
    if j <= 0 {
        0
    } else {
        legato_start(lengths, j - 1) + lengths[j - 1]
    }
}

/// `events` plays `melody` note after note from time 0, note `j` lasting
/// `lengths[j]`: it starts when the previous note's length is over and is
/// released 10 ms before its own length is.
pub open spec fn plays_melody(events: Seq<NoteEvent>, melody: Seq<u8>, lengths: Seq<int>) -> bool {
    &&& lengths.len() == melody.len()
    &&& events.len() == 2 * melody.len()
    &&& forall|j: int|
        0 <= j < melody.len() ==> #[trigger] events[2 * j] == (NoteEvent {
            at_us: legato_start(lengths, j) as u64,
            midi: melody[j],
            on: true,
        }) && events[2 * j + 1] == (NoteEvent {
            at_us: (legato_start(lengths, j) + lengths[j] - 10_000) as u64,
            midi: melody[j],
            on: false,
        })
}

/// The title melody `T160 O1 L8 CDEDCD L4 ECC`: six eighth notes of
/// 187.5 ms, then three quarter notes of 375 ms, in octave 1 (C is MIDI 48).
/// The throw sound `O0 L32 A- L64 C L16 B L64 A+` at the default tempo 120:
/// A flat for 62.5 ms, C for 31.25 ms, B for 125 ms and A sharp for 31.25 ms,
/// in octave 0 (C is MIDI 36).
pub proof fn lemma_intro_and_throw_melodies()
    ensures
        plays_melody(
            cue_events(SoundCue::Intro),
            seq![48u8, 50, 52, 50, 48, 50, 52, 48, 48],
            seq![187_500int, 187_500, 187_500, 187_500, 187_500, 187_500, 375_000, 375_000, 375_000],
        ),
        plays_melody(
            cue_events(SoundCue::Throw),
            seq![44u8, 36, 47, 46],
            seq![62_500int, 31_250, 125_000, 31_250],
        ),
{
    let il = seq![187_500int, 187_500, 187_500, 187_500, 187_500, 187_500, 375_000, 375_000, 375_000];
    let im = seq![48u8, 50, 52, 50, 48, 50, 52, 48, 48];
    let tl = seq![62_500int, 31_250, 125_000, 31_250];
    let tm = seq![44u8, 36, 47, 46];
    reveal_with_fuel(legato_start, 10);
    assert(legato_start(il, 8) == 1_875_000);
    assert(legato_start(tl, 3) == 218_750);
    let ie = cue_events(SoundCue::Intro);
    let te = cue_events(SoundCue::Throw);
    assert forall|j: int| 0 <= j < 9 implies #[trigger] ie[2 * j] == (NoteEvent {
        at_us: legato_start(il, j) as u64,
        midi: im[j],
        on: true,
    }) && ie[2 * j + 1] == (NoteEvent {
        at_us: (legato_start(il, j) + il[j] - 10_000) as u64,
        midi: im[j],
        on: false,
    }) by {
        assert((2 * j) / 2 == j && (2 * j + 1) / 2 == j && (2 * j) % 2 == 0 && (2 * j + 1) % 2 == 1);
    }
    assert forall|j: int| 0 <= j < 4 implies #[trigger] te[2 * j] == (NoteEvent {
        at_us: legato_start(tl, j) as u64,
        midi: tm[j],
        on: true,
    }) && te[2 * j + 1] == (NoteEvent {
        at_us: (legato_start(tl, j) + tl[j] - 10_000) as u64,
        midi: tm[j],
        on: false,
    }) by {
        assert((2 * j) / 2 == j && (2 * j + 1) / 2 == j && (2 * j) % 2 == 0 && (2 * j + 1) % 2 == 1);
    }
}

/// The four phrases of the gorilla intro share one rhythm: event `k` of
/// phrase `p` happens `p` phrase lengths (2.944444 s each) after event `k`
/// of the first phrase, and is a note-on exactly when that one is.
pub proof fn lemma_gorilla_intro_phrases_share_rhythm()
    ensures
        forall|p: int, k: int|
            0 <= p < 4 && 0 <= k < 30 ==> (#[trigger] cue_events(SoundCue::GorillaIntro)[30 * p + k]).at_us
                == cue_events(SoundCue::GorillaIntro)[k].at_us + p * 2_944_444 && cue_events(
                SoundCue::GorillaIntro,
            )[30 * p + k].on == cue_events(SoundCue::GorillaIntro)[k].on,
{
    assert forall|p: int, k: int| 0 <= p < 4 && 0 <= k < 30 implies (#[trigger] cue_events(
        SoundCue::GorillaIntro,
    )[30 * p + k]).at_us == cue_events(SoundCue::GorillaIntro)[k].at_us + p * 2_944_444
        && cue_events(SoundCue::GorillaIntro)[30 * p + k].on == cue_events(
        SoundCue::GorillaIntro,
    )[k].on by {
        assert((30 * p + k) / 30 == p && (30 * p + k) % 30 == k);
        assert(k / 30 == 0 && k % 30 == k);
        assert((30 * p + k) % 2 == k % 2);
        assert(0 <= k / 2 < 15);
        assert(forall|t: int|
            0 <= t < 15 ==> (#[trigger] GORILLA_INTRO_TIMING@[t]).0 <= 2_819_444
                && GORILLA_INTRO_TIMING@[t].1 <= 222_222);
    }
}

/// Event counts of the cues: two events (on and off) per note.
pub proof fn lemma_cue_event_counts()
    ensures
        cue_events(SoundCue::Intro).len() == 18,
        cue_events(SoundCue::GorillaIntro).len() == 120,
        cue_events(SoundCue::Throw).len() == 8,
        cue_events(SoundCue::BuildingExplosion).len() == 14,
        cue_events(SoundCue::GorillaExplosion).len() == 14,
        cue_events(SoundCue::VictoryDance).len() == 112,
{
}

/// Every note of every cue is a valid MIDI note (at most 127).
pub proof fn lemma_cue_midi_in_range(cue: SoundCue, k: int)
    requires
        0 <= k < cue_events(cue).len(),
    ensures
        cue_events(cue)[k].midi <= 127,
{
    match cue {
        SoundCue::GorillaIntro => {
            let phrase = k / 30;
            let slot = (k % 30) / 2;
            assert(0 <= phrase < 4 && 0 <= slot < 15);
            let row = GORILLA_INTRO_PHRASES@[phrase];
            assert(forall|s: int| 0 <= s < 15 ==> #[trigger] row@[s] <= 127);
        },
        SoundCue::VictoryDance => {
            assert(0 <= k % 14 < 14);
        },
        _ => {},
    }
}

/// Events come in pairs: every note-on at an even position is followed by the
/// note-off of the same MIDI note, strictly later.
pub proof fn lemma_note_off_follows_note_on(cue: SoundCue, k: int)
    requires
        0 <= k,
        2 * k + 1 < cue_events(cue).len(),
    ensures
        cue_events(cue)[2 * k].on,
        !cue_events(cue)[2 * k + 1].on,
        cue_events(cue)[2 * k].midi == cue_events(cue)[2 * k + 1].midi,
        cue_events(cue)[2 * k].at_us < cue_events(cue)[2 * k + 1].at_us,
{
    assert((2 * k) / 2 == k && (2 * k + 1) / 2 == k && (2 * k) % 2 == 0 && (2 * k + 1) % 2 == 1);
    match cue {
        SoundCue::GorillaIntro => {
            assert((2 * k) / 30 == (2 * k + 1) / 30);
            assert(((2 * k) % 30) / 2 == ((2 * k + 1) % 30) / 2);
            let slot = ((2 * k) % 30) / 2;
            assert(0 <= slot < 15);
            assert(forall|s: int| 0 <= s < 15 ==> (#[trigger] GORILLA_INTRO_TIMING@[s]).1 > 10_000);
        },
        SoundCue::VictoryDance => {
            assert((2 * k) / 14 == (2 * k + 1) / 14);
            assert((2 * k) % 14 + 1 == (2 * k + 1) % 14);
            let j = ((2 * k) % 14) / 2;
            assert(0 <= j < 7);
            assert(((2 * k) % 14) / 2 == ((2 * k + 1) % 14) / 2);
        },
        _ => {},
    }
}

/// Every event of every cue happens within twelve seconds of the cue's start.
pub proof fn lemma_cue_times_bounded(cue: SoundCue, k: int)
    requires
        0 <= k < cue_events(cue).len(),
    ensures
        cue_events(cue)[k].at_us <= 12_000_000,
{
    match cue {
        SoundCue::GorillaIntro => {
            let phrase = k / 30;
            let slot = (k % 30) / 2;
            assert(0 <= phrase < 4 && 0 <= slot < 15);
            assert(forall|s: int|
                0 <= s < 15 ==> (#[trigger] GORILLA_INTRO_TIMING@[s]).0 <= 2_819_444
                    && GORILLA_INTRO_TIMING@[s].1 <= 222_222);
        },
        SoundCue::VictoryDance => {
            assert(0 <= k % 14 < 14);
            assert(0 <= k / 14 < 8);
            let j = (k % 14) / 2;
            assert(0 <= j < 7);
            assert(forall|s: int|
                0 <= s < 7 ==> (#[trigger] BUILDING_EXPLOSION_NOTES@[s]).0 <= 375_000
                    && BUILDING_EXPLOSION_NOTES@[s].2 <= 62_500);
        },
        SoundCue::Intro => {
            assert(forall|s: int|
                0 <= s < 9 ==> (#[trigger] INTRO_NOTES@[s]).0 <= 1_875_000 && INTRO_NOTES@[s].2
                    <= 375_000);
        },
        SoundCue::Throw => {
            assert(forall|s: int|
                0 <= s < 4 ==> (#[trigger] THROW_NOTES@[s]).0 <= 218_750 && THROW_NOTES@[s].2
                    <= 125_000);
        },
        SoundCue::BuildingExplosion => {
            assert(forall|s: int|
                0 <= s < 7 ==> (#[trigger] BUILDING_EXPLOSION_NOTES@[s]).0 <= 375_000
                    && BUILDING_EXPLOSION_NOTES@[s].2 <= 62_500);
        },
        SoundCue::GorillaExplosion => {
            assert(forall|s: int|
                0 <= s < 7 ==> (#[trigger] GORILLA_EXPLOSION_NOTES@[s]).0 <= 750_000
                    && GORILLA_EXPLOSION_NOTES@[s].2 <= 125_000);
        },
    }
}

/// Latest clock time, in microseconds, at which the queue takes a cue; the
/// clock counts from the start of the program.
pub const SCHEDULE_TIME_LIMIT: u64 = 4_611_686_018_427_387_904;

/// Pause between the end of the queued events and a cue queued after them.
pub const ENQUEUE_GAP_US: u64 = 10_000;

/// The events `events` moved `start` microseconds later.
pub open spec fn shifted(events: Seq<NoteEvent>, start: int) -> Seq<NoteEvent> {
    events.map_values(
        |e: NoteEvent| NoteEvent { at_us: (e.at_us + start) as u64, midi: e.midi, on: e.on },
    )
}

/// The events of `s` that are due at `now`, in queue order.
pub open spec fn due_events(s: Seq<NoteEvent>, now: int) -> Seq<NoteEvent>
    decreases s.len(),
{
    if s.len() == 0 {
        s
    } else if s.last().at_us <= now {
        due_events(s.drop_last(), now).push(s.last())
    } else {
        due_events(s.drop_last(), now)
    }
}

/// The events of `s` that are not yet due at `now`, in queue order.
pub open spec fn later_events(s: Seq<NoteEvent>, now: int) -> Seq<NoteEvent>
    decreases s.len(),
{
    if s.len() == 0 {
        s
    } else if s.last().at_us <= now {
        later_events(s.drop_last(), now)
    } else {
        later_events(s.drop_last(), now).push(s.last())
    }
}

/// The latest time of the events of `s` (zero for none).
pub open spec fn latest(s: Seq<NoteEvent>) -> int
    decreases s.len(),
{
    if s.len() == 0 {
        0
    } else if latest(s.drop_last()) < s.last().at_us {
        s.last().at_us as int
    } else {
        latest(s.drop_last())
    }
}

/// Where a cue queued after `s` starts: ten milliseconds after the latest
/// queued event, or at once (`now`) when nothing is queued.
pub open spec fn enqueue_start(s: Seq<NoteEvent>, now: int) -> int {
    if s.len() == 0 {
        now
    } else {
        latest(s) + ENQUEUE_GAP_US
    }
}

/// The pending note events, at absolute clock times in microseconds.
pub struct EventQueue {
    pub events: Vec<NoteEvent>,
}

impl EventQueue {
    /// Every queued event lies at or before `limit`.
    pub open spec fn times_within(self, limit: int) -> bool {
        forall|k: int| 0 <= k < self.events@.len() ==> #[trigger] self.events@[k].at_us <= limit
    }

    /// An empty queue.
    pub fn new() -> (q: EventQueue)
        ensures
            q.events@.len() == 0,
    {
        EventQueue { events: Vec::new() }
    }

    /// Appends the events of `cue` starting at `start`.
    fn push_cue(&mut self, cue: SoundCue, start: u64)
        requires
            start <= SCHEDULE_TIME_LIMIT + ENQUEUE_GAP_US,
        ensures
            final(self).events@ == old(self).events@ + shifted(cue_events(cue), start as int),
    {
        let schedule = cue_schedule(cue);
        let ghost base = self.events@;
        let mut i: usize = 0;
        while i < schedule.len()
            invariant
                schedule@ == cue_events(cue),
                start <= SCHEDULE_TIME_LIMIT + ENQUEUE_GAP_US,
                i <= schedule@.len(),
                self.events@ == base + shifted(cue_events(cue), start as int).subrange(0, i as int),
            decreases schedule@.len() - i,
        {
            let e = schedule[i];
            proof {
                lemma_cue_times_bounded(cue, i as int);
            }
            self.events.push(NoteEvent { at_us: e.at_us + start, midi: e.midi, on: e.on });
            assert(shifted(cue_events(cue), start as int).subrange(0, i as int + 1)
                =~= shifted(cue_events(cue), start as int).subrange(0, i as int).push(
                NoteEvent { at_us: (e.at_us + start) as u64, midi: e.midi, on: e.on },
            ));
            i = i + 1;
        }
        assert(shifted(cue_events(cue), start as int).subrange(0, schedule@.len() as int)
            =~= shifted(cue_events(cue), start as int));
    }

    /// Drops everything queued and schedules `cue` to start at `now_us`.
    pub fn play(&mut self, cue: SoundCue, now_us: u64)
        requires
            now_us <= SCHEDULE_TIME_LIMIT,
        ensures
            final(self).events@ == shifted(cue_events(cue), now_us as int),
    {
        self.events.clear();
        self.push_cue(cue, now_us);
        assert(self.events@ =~= shifted(cue_events(cue), now_us as int));
    }

    /// The latest time of the queued events (zero for none).
    fn latest_time(&self) -> (t: u64)
        ensures
            t == latest(self.events@),
    {
        let mut t: u64 = 0;
        let mut i: usize = 0;
        while i < self.events.len()
            invariant
                i <= self.events@.len(),
                t == latest(self.events@.subrange(0, i as int)),
            decreases self.events@.len() - i,
        {
            let ghost next = self.events@.subrange(0, i as int + 1);
            assert(next.drop_last() =~= self.events@.subrange(0, i as int));
            if t < self.events[i].at_us {
                t = self.events[i].at_us;
            }
            i = i + 1;
        }
        assert(self.events@.subrange(0, self.events@.len() as int) =~= self.events@);
        t
    }

    /// Schedules `cue` ten milliseconds after the latest queued event, or at
    /// `now_us` when nothing is queued.
    pub fn enqueue_after(&mut self, cue: SoundCue, now_us: u64)
        requires
            now_us <= SCHEDULE_TIME_LIMIT,
            old(self).times_within(SCHEDULE_TIME_LIMIT as int),
        ensures
            final(self).events@ == old(self).events@ + shifted(
                cue_events(cue),
                enqueue_start(old(self).events@, now_us as int),
            ),
    {
        let start = if self.events.len() == 0 {
            now_us
        } else {
            let last = self.latest_time();
            proof {
                lemma_latest_within(self.events@, SCHEDULE_TIME_LIMIT as int);
            }
            last + ENQUEUE_GAP_US
        };
        self.push_cue(cue, start);
    }

    /// Removes the events due at `now_us` and returns them in queue order;
    /// the later events stay queued in their order.
    pub fn take_due(&mut self, now_us: u64) -> (due: Vec<NoteEvent>)
        ensures
            due@ == due_events(old(self).events@, now_us as int),
            final(self).events@ == later_events(old(self).events@, now_us as int),
    {
        let mut due: Vec<NoteEvent> = Vec::new();
        let mut later: Vec<NoteEvent> = Vec::new();
        let ghost s = self.events@;
        let mut i: usize = 0;
        while i < self.events.len()
            invariant
                s == self.events@,
                i <= s.len(),
                due@ == due_events(s.subrange(0, i as int), now_us as int),
                later@ == later_events(s.subrange(0, i as int), now_us as int),
            decreases s.len() - i,
        {
            let e = self.events[i];
            let ghost next = s.subrange(0, i as int + 1);
            assert(next.drop_last() =~= s.subrange(0, i as int));
            if e.at_us <= now_us {
                due.push(e);
            } else {
                later.push(e);
            }
            i = i + 1;
        }
        assert(s.subrange(0, s.len() as int) =~= s);
        self.events = later;
        due
    }
}

/// The queue `q` with `cues` queued one after another behind it.
pub open spec fn enqueue_all(q: Seq<NoteEvent>, cues: Seq<SoundCue>, now: int) -> Seq<NoteEvent>
    decreases cues.len(),
{
    if cues.len() == 0 {
        q
    } else {
        let p = enqueue_all(q, cues.drop_last(), now);
        p + shifted(cue_events(cues.last()), enqueue_start(p, now))
    }
}

/// The queue after dispatching `cues` at `now`: the first cue plays at once
/// in place of everything queued, and the others are queued after it in
/// order; no cues leave the queue as it is.
pub open spec fn dispatched(q: Seq<NoteEvent>, cues: Seq<SoundCue>, now: int) -> Seq<NoteEvent> {
    if cues.len() == 0 {
        q
    } else {
        enqueue_all(shifted(cue_events(cues[0]), now), cues.drop_first(), now)
    }
}

/// Clock time that each dispatched cue may take up: its events and the gap
/// before the next one.
pub const DISPATCH_SPAN_US: u64 = 13_000_000;

/// The events of `cue` started at `start` lie at or before `limit` when the
/// cue fits before it.
proof fn lemma_shifted_within(cue: SoundCue, start: int, limit: int)
    requires
        0 <= start,
        start + 12_000_000 <= limit,
        limit <= u64::MAX,
    ensures
        forall|k: int|
            0 <= k < cue_events(cue).len() ==> #[trigger] shifted(cue_events(cue), start)[k].at_us
                <= limit,
{
    assert forall|k: int| 0 <= k < cue_events(cue).len() implies #[trigger] shifted(
        cue_events(cue),
        start,
    )[k].at_us <= limit by {
        lemma_cue_times_bounded(cue, k);
    }
}

impl EventQueue {
    /// Plays the first of `cues` at once and queues the others after it, in
    /// order; returns whether a cue was played (the synthesizer is then
    /// silenced before the new events sound).
    pub fn dispatch(&mut self, cues: &Vec<SoundCue>, now_us: u64) -> (played: bool)
        requires
            now_us + cues@.len() * DISPATCH_SPAN_US <= SCHEDULE_TIME_LIMIT,
        ensures
            played == (cues@.len() > 0),
            final(self).events@ == dispatched(old(self).events@, cues@, now_us as int),
    {
        if cues.len() == 0 {
            return false;
        }
        self.play(cues[0], now_us);
        proof {
            lemma_shifted_within(cues@[0], now_us as int, now_us + DISPATCH_SPAN_US);
        }
        let ghost first = shifted(cue_events(cues@[0]), now_us as int);
        assert(enqueue_all(first, cues@.subrange(1, 1), now_us as int) == first);
        let mut i: usize = 1;
        while i < cues.len()
            invariant
                1 <= i <= cues@.len(),
                now_us + cues@.len() * DISPATCH_SPAN_US <= SCHEDULE_TIME_LIMIT,
                first == shifted(cue_events(cues@[0]), now_us as int),
                self.events@ == enqueue_all(first, cues@.subrange(1, i as int), now_us as int),
                self.times_within(now_us + i * DISPATCH_SPAN_US),
            decreases cues@.len() - i,
        {
            let ghost before = self.events@;
            let ghost bound = now_us + i * DISPATCH_SPAN_US;
            proof {
                if before.len() > 0 {
                    lemma_latest_within(before, bound);
                }
            }
            self.enqueue_after(cues[i], now_us);
            proof {
                let start = enqueue_start(before, now_us as int);
                lemma_shifted_within(cues@[i as int], start, bound + DISPATCH_SPAN_US);
                let next = cues@.subrange(1, i as int + 1);
                assert(next.drop_last() =~= cues@.subrange(1, i as int));
                assert(next.last() == cues@[i as int]);
                assert forall|k: int| 0 <= k < self.events@.len() implies #[trigger] self.events@[k].at_us
                    <= bound + DISPATCH_SPAN_US by {
                    if k >= before.len() {
                        assert(self.events@[k] == shifted(cue_events(cues@[i as int]), start)[k
                            - before.len()]);
                    } else {
                        assert(self.events@[k] == before[k]);
                    }
                }
            }
            i = i + 1;
        }
        assert(cues@.subrange(1, cues@.len() as int) =~= cues@.drop_first());
        true
    }
}

/// The latest time of events that all lie at or before `limit` is at most
/// `limit`.
proof fn lemma_latest_within(s: Seq<NoteEvent>, limit: int)
    requires
        0 <= limit,
        forall|k: int| 0 <= k < s.len() ==> #[trigger] s[k].at_us <= limit,
    ensures
        latest(s) <= limit,
    decreases s.len(),
{
    if s.len() > 0 {
        assert(s.last().at_us <= limit);
        lemma_latest_within(s.drop_last(), limit);
    }
}

/// Taking the due events splits the queue without losing or inventing an
/// event: every taken event is due, every kept one is not, and together they
/// are as many as the queue held.
pub proof fn lemma_take_due_splits_queue(s: Seq<NoteEvent>, now: int)
    ensures
        due_events(s, now).len() + later_events(s, now).len() == s.len(),
        forall|k: int|
            0 <= k < due_events(s, now).len() ==> #[trigger] due_events(s, now)[k].at_us <= now,
        forall|k: int|
            0 <= k < later_events(s, now).len() ==> #[trigger] later_events(s, now)[k].at_us > now,
    decreases s.len(),
{
    if s.len() > 0 {
        lemma_take_due_splits_queue(s.drop_last(), now);
    }
}

/// A second tick at the same time finds nothing due and keeps the queue as
/// the first tick left it: each event is sent at most once.
pub proof fn lemma_take_due_twice(s: Seq<NoteEvent>, now: int)
    ensures
        due_events(later_events(s, now), now).len() == 0,
        later_events(later_events(s, now), now) == later_events(s, now),
{
    lemma_take_due_splits_queue(s, now);
    lemma_nothing_due(later_events(s, now), now);
}

proof fn lemma_nothing_due(s: Seq<NoteEvent>, now: int)
    requires
        forall|k: int| 0 <= k < s.len() ==> #[trigger] s[k].at_us > now,
    ensures
        due_events(s, now).len() == 0,
        later_events(s, now) == s,
    decreases s.len(),
{
    if s.len() > 0 {
        assert(s.last().at_us > now);
        lemma_nothing_due(s.drop_last(), now);
        assert(s.drop_last().push(s.last()) =~= s);
    }
}

/// A cue queued after others starts no earlier than every queued event,
/// and no earlier than now when nothing is queued.
pub proof fn lemma_enqueued_cue_follows_queue(s: Seq<NoteEvent>, now: int, k: int)
    requires
        0 <= k < s.len(),
    ensures
        s[k].at_us < enqueue_start(s, now),
    decreases s.len(),
{
    if k < s.len() - 1 {
        assert(s.drop_last()[k] == s[k]);
        lemma_enqueued_cue_follows_queue(s.drop_last(), now, k);
    }
}

} // verus!
