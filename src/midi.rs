use vstd::prelude::*;

use crate::time_signature::TimeSignature;
use crate::beat_grid::{
    position_offset_of, positions_per_beat, total_positions_of, BeatGrid, NANOS_PER_FOUR_MINUTES, NANOS_PER_MINUTE,
};
use crate::pattern::Pattern;

verus! {

/// Note number of the kick drum (C1 in the General MIDI percussion map).
pub const KICK_NOTE: u8 = 36;

/// Note number of the click (C#1 in the General MIDI percussion map).
pub const CLICK_NOTE: u8 = 37;

/// Velocity of a kick trigger.
pub const KICK_VELOCITY: u8 = 100;

/// Velocity of a click trigger.
pub const CLICK_VELOCITY: u8 = 80;

/// Percussion channel (channel 10, counted from zero).
pub const MIDI_CHANNEL: u8 = 9;

/// Clicks played before the pattern starts.
pub const COUNT_IN_BEATS: u64 = 4;

/// A click is released this many nanoseconds after its trigger.
pub const CLICK_RELEASE_NANOS: u64 = 50_000_000;

/// A kick is released this many nanoseconds after its trigger.
pub const KICK_RELEASE_NANOS: u64 = 100_000_000;

/// Longest pattern whose event times are sure to fit in 64-bit nanoseconds.
pub const MAX_PATTERN_STEPS: usize = 50_000_000;

/// Whether an event starts or ends a note.
#[derive(Debug, Clone, Copy, PartialEq, Eq, Structural)]
pub enum MidiEventType {
    NoteOn,
    NoteOff,
}

/// One timed message of a phase (count-in or pattern body).
#[derive(Debug, Clone, Copy, PartialEq, Eq, Structural)]
pub struct MidiEvent {
    /// Nanoseconds from the start of the phase.
    pub time_offset: u64,
    /// Note number.
    pub note: u8,
    /// Velocity (0 for a release).
    pub velocity: u8,
    /// Trigger or release.
    pub event_type: MidiEventType,
}

/// A trigger of `note` at time `t`.
pub open spec fn trigger_at(t: int, note: u8, velocity: u8) -> MidiEvent {
    MidiEvent { time_offset: t as u64, note, velocity, event_type: MidiEventType::NoteOn }
}

/// A release of `note` at time `t`.
pub open spec fn release_at(t: int, note: u8) -> MidiEvent {
    MidiEvent { time_offset: t as u64, note, velocity: 0, event_type: MidiEventType::NoteOff }
}

/// A click triggered at `t` and released 50 ms later.
pub open spec fn click_pair(t: int) -> Seq<MidiEvent> {
    seq![trigger_at(t, CLICK_NOTE, CLICK_VELOCITY), release_at(t + CLICK_RELEASE_NANOS, CLICK_NOTE)]
}

/// A kick triggered at `t` and released 100 ms later.
pub open spec fn kick_pair(t: int) -> Seq<MidiEvent> {
    seq![trigger_at(t, KICK_NOTE, KICK_VELOCITY), release_at(t + KICK_RELEASE_NANOS, KICK_NOTE)]
}

/// Start of beat `b` at the given tempo, in nanoseconds (rounded down).
pub open spec fn beat_offset_of(b: int, tempo_bpm: int) -> int {
    b * NANOS_PER_MINUTE as int / tempo_bpm
}

/// Click pairs on the first `n` beats of the count-in.
pub open spec fn count_in_upto(tempo_bpm: int, n: int) -> Seq<MidiEvent>
    decreases n,
{
    if n <= 0 {
        Seq::empty()
    } else {
        count_in_upto(tempo_bpm, n - 1) + click_pair(beat_offset_of(n - 1, tempo_bpm))
    }
}

/// Click pairs on the first `n` beats of a grid.
pub open spec fn clicks_upto(sig: TimeSignature, subdivision: u8, tempo_bpm: int, n: int) -> Seq<
    MidiEvent,
>
    decreases n,
{
    if n <= 0 {
        Seq::empty()
    } else {
        clicks_upto(sig, subdivision, tempo_bpm, n - 1) + click_pair(
            position_offset_of(
                (n - 1) * positions_per_beat(sig, subdivision),
                tempo_bpm,
                subdivision as int,
            ),
        )
    }
}

/// Kick pairs on the kicks among the first `n` steps.
pub open spec fn kicks_upto(steps: Seq<bool>, subdivision: u8, tempo_bpm: int, n: int) -> Seq<
    MidiEvent,
>
    decreases n,
{
    if n <= 0 {
        Seq::empty()
    } else {
        kicks_upto(steps, subdivision, tempo_bpm, n - 1) + if steps[n - 1] {
            kick_pair(position_offset_of(n - 1, tempo_bpm, subdivision as int))
        } else {
            Seq::empty()
        }
    }
}

/// The events of a pattern body in the order they are made: the click
/// pairs first (when asked for), then the kick pairs.
pub open spec fn body_events_unsorted(p: Pattern, tempo_bpm: int, include_click: bool) -> Seq<
    MidiEvent,
> {
    (if include_click {
        clicks_upto(p.time_signature, p.subdivision, tempo_bpm, p.time_signature.numerator as int)
    } else {
        Seq::empty()
    }) + kicks_upto(p.steps@, p.subdivision, tempo_bpm, p.steps@.len() as int)
}

/// `out` is ordered by time, and events at the same time keep the order of
/// `perm`, their places in the input.
pub open spec fn time_ordered(out: Seq<MidiEvent>, perm: Seq<int>) -> bool {
    forall|i: int, j: int|
        0 <= i < j < out.len() ==> (#[trigger] out[i]).time_offset < (#[trigger] out[j]).time_offset
            || (out[i].time_offset == out[j].time_offset && perm[i] < perm[j])
}

/// `out` places `input[perm[i]]` at `i`, each input event exactly once, in
/// time order, ties in input order.
pub open spec fn stable_sort_by_time(perm: Seq<int>, out: Seq<MidiEvent>, input: Seq<MidiEvent>) -> bool {
    &&& perm.len() == out.len()
    &&& out.len() == input.len()
    &&& forall|i: int|
        0 <= i < out.len() ==> 0 <= #[trigger] perm[i] < input.len() && out[i] == input[perm[i]]
    &&& forall|i: int, j: int| 0 <= i < j < out.len() ==> #[trigger] perm[i] != #[trigger] perm[j]
    &&& time_ordered(out, perm)
}

/// `out` is `input` sorted by time, stably.
pub open spec fn is_stable_sort_of(out: Seq<MidiEvent>, input: Seq<MidiEvent>) -> bool {
    exists|perm: Seq<int>| stable_sort_by_time(perm, out, input)
}

/// Sorts events by time; events at the same time keep their order.
pub fn sort_by_time(input: &Vec<MidiEvent>) -> (r: Vec<MidiEvent>)
    ensures
        is_stable_sort_of(r@, input@),
{
    let mut out: Vec<MidiEvent> = Vec::new();
    let ghost mut perm: Seq<int> = Seq::empty();
    let mut k: usize = 0;
    while k < input.len()
        invariant
            k <= input@.len(),
            perm.len() == out@.len(),
            out@.len() == k,
            forall|i: int| 0 <= i < out@.len() ==> 0 <= #[trigger] perm[i] < k && out@[i] == input@[perm[i]],
            forall|i: int, j: int| 0 <= i < j < out@.len() ==> #[trigger] perm[i] != #[trigger] perm[j],
            time_ordered(out@, perm),
        decreases input@.len() - k,
    {
        let e = input[k];
        let mut pos: usize = 0;
        while pos < out.len() && out[pos].time_offset <= e.time_offset
            invariant
                pos <= out@.len(),
                forall|i: int| 0 <= i < pos ==> (#[trigger] out@[i]).time_offset <= e.time_offset,
            decreases out@.len() - pos,
        {
            pos = pos + 1;
        }
        assert forall|i: int| pos <= i < out@.len() implies (#[trigger] out@[i]).time_offset
            > e.time_offset by {
            if i > pos {
                assert(out@[pos as int].time_offset <= out@[i].time_offset);
            }
        }
        let ghost old_out = out@;
        let ghost old_perm = perm;
        out.insert(pos, e);
        proof {
            perm = perm.insert(pos as int, k as int);
            assert forall|i: int| 0 <= i < out@.len() implies 0 <= #[trigger] perm[i] < k + 1
                && out@[i] == input@[perm[i]] by {
                if i < pos {
                    assert(perm[i] == old_perm[i]);
                } else if i > pos {
                    assert(perm[i] == old_perm[i - 1]);
                }
            }
            assert forall|i: int, j: int| 0 <= i < j < out@.len() implies #[trigger] perm[i]
                != #[trigger] perm[j] by {
                if i != pos && j != pos {
                    let oi = if i < pos { i } else { i - 1 };
                    let oj = if j < pos { j } else { j - 1 };
                    assert(perm[i] == old_perm[oi]);
                    assert(perm[j] == old_perm[oj]);
                } else if i == pos {
                    assert(perm[j] == old_perm[j - 1]);
                } else {
                    let oi = if i < pos { i } else { i - 1 };
                    assert(perm[i] == old_perm[oi]);
                }
            }
            assert forall|i: int, j: int| 0 <= i < j < out@.len() implies (#[trigger] out@[i]).time_offset
                < (#[trigger] out@[j]).time_offset || (out@[i].time_offset == out@[j].time_offset
                && perm[i] < perm[j]) by {
                let oi = if i < pos { i } else { i - 1 };
                let oj = if j < pos { j } else { j - 1 };
                if i == pos {
                    assert(out@[j] == old_out[oj]);
                } else if j == pos {
                    assert(out@[i] == old_out[oi]);
                    assert(perm[i] == old_perm[oi]);
                } else {
                    assert(out@[i] == old_out[oi]);
                    assert(out@[j] == old_out[oj]);
                    assert(perm[i] == old_perm[oi]);
                    assert(perm[j] == old_perm[oj]);
                    assert(oi < oj);
                }
            }
        }
        k = k + 1;
    }
    assert(stable_sort_by_time(perm, out@, input@));
    out
}

/// Offsets of positions up to the longest pattern fit in 64 bits with room
/// for a release.
proof fn lemma_offset_fits(idx: int, tempo_bpm: int, subdivision: int)
    requires
        0 <= idx <= MAX_PATTERN_STEPS,
        tempo_bpm >= 1,
        subdivision >= 1,
    ensures
        0 <= position_offset_of(idx, tempo_bpm, subdivision) <= 12_000_000_000_000_000_000,
{
    let num = idx * NANOS_PER_FOUR_MINUTES as int;
    let den = tempo_bpm * subdivision;
    assert(den >= 1) by (nonlinear_arith)
        requires
            den == tempo_bpm * subdivision,
            tempo_bpm >= 1,
            subdivision >= 1,
    ;
    assert(num <= 12_000_000_000_000_000_000) by (nonlinear_arith)
        requires
            0 <= idx <= 50_000_000,
            num == idx * 240_000_000_000,
    ;
    assert(0 <= num / den <= num) by (nonlinear_arith)
        requires
            num >= 0,
            den >= 1,
    ;
}

/// Builds the timed events of a playback; the device connection lives with
/// the caller.
#[derive(Debug, Clone, Copy, PartialEq, Eq, Structural)]
pub struct MidiEngine {
    /// Channel the messages go to (0-15).
    pub channel: u8,
}

impl MidiEngine {
    /// An engine on the percussion channel.
    pub fn new() -> (r: Self)
        ensures
            r.channel == MIDI_CHANNEL,
    {
        MidiEngine { channel: MIDI_CHANNEL }
    }

    /// The three bytes that start `note` at `velocity` on the engine's channel.
    pub fn note_on_message(&self, note: u8, velocity: u8) -> (r: [u8; 3])
        ensures
            r@ == seq![0x90u8 | self.channel, note, velocity],
    {
        [0x90u8 | self.channel, note, velocity]
    }

    /// The three bytes that end `note` on the engine's channel.
    pub fn note_off_message(&self, note: u8) -> (r: [u8; 3])
        ensures
            r@ == seq![0x80u8 | self.channel, note, 0u8],
    {
        [0x80u8 | self.channel, note, 0]
    }

    /// The count-in: a click pair on each of four beats.
    pub fn generate_count_in_events(&self, tempo_bpm: u16) -> (r: Vec<MidiEvent>)
        requires
            tempo_bpm > 0,
        ensures
            r@ == count_in_upto(tempo_bpm as int, COUNT_IN_BEATS as int),
    {
        let mut events: Vec<MidiEvent> = Vec::new();
        let mut beat: u64 = 0;
        while beat < COUNT_IN_BEATS
            invariant
                tempo_bpm > 0,
                beat <= COUNT_IN_BEATS,
                events@ == count_in_upto(tempo_bpm as int, beat as int),
            decreases COUNT_IN_BEATS - beat,
        {
            assert(beat * NANOS_PER_MINUTE <= 3 * NANOS_PER_MINUTE) by (nonlinear_arith)
                requires
                    beat <= 3,
            ;
            assert((beat * NANOS_PER_MINUTE) as int / (tempo_bpm as int) <= beat * NANOS_PER_MINUTE)
                by (nonlinear_arith)
                requires
                    tempo_bpm >= 1,
                    beat * NANOS_PER_MINUTE >= 0,
            ;
            let time_offset = beat * NANOS_PER_MINUTE / tempo_bpm as u64;
            events.push(
                MidiEvent {
                    time_offset,
                    note: CLICK_NOTE,
                    velocity: CLICK_VELOCITY,
                    event_type: MidiEventType::NoteOn,
                },
            );
            events.push(
                MidiEvent {
                    time_offset: time_offset + CLICK_RELEASE_NANOS,
                    note: CLICK_NOTE,
                    velocity: 0,
                    event_type: MidiEventType::NoteOff,
                },
            );
            assert(events@ =~= count_in_upto(tempo_bpm as int, beat + 1));
            beat = beat + 1;
        }
        events
    }

    /// The events of one pass of the pattern body, sorted by time: a kick
    /// pair on every kick, and a click pair on every beat when asked for.
    /// Events at the same time keep the order they were made in, clicks
    /// before kicks.
    pub fn pattern_to_midi_events(&self, pattern: &Pattern, tempo_bpm: u16, include_click: bool) -> (r:
        Vec<MidiEvent>)
        requires
            tempo_bpm > 0,
            pattern.subdivision > 0,
            pattern.time_signature.denominator > 0,
            pattern.steps@.len() <= MAX_PATTERN_STEPS,
        ensures
            is_stable_sort_of(r@, body_events_unsorted(*pattern, tempo_bpm as int, include_click)),
    {
        let grid = BeatGrid::new(pattern.time_signature, pattern.subdivision, pattern.num_measures);
        let ghost sub = pattern.subdivision;
        let mut events: Vec<MidiEvent> = Vec::new();
        if include_click {
            let beats = grid.beat_positions();
            let mut b: usize = 0;
            while b < beats.len()
                invariant
                    tempo_bpm > 0,
                    grid.subdivision == sub,
                    sub > 0,
                    b <= beats@.len(),
                    beats@.len() == pattern.time_signature.numerator,
                    grid.time_signature == pattern.time_signature,
                    pattern.time_signature.denominator > 0,
                    forall|i: int| 0 <= i < beats@.len() ==> #[trigger] beats@[i] as int == i * positions_per_beat(pattern.time_signature, sub),
                    events@ == clicks_upto(pattern.time_signature, sub, tempo_bpm as int, b as int),
                decreases beats@.len() - b,
            {
                proof {
                    let per_beat = positions_per_beat(pattern.time_signature, sub);
                    assert(0 <= per_beat <= 255) by (nonlinear_arith)
                        requires
                            per_beat == sub as int / pattern.time_signature.denominator as int,
                            pattern.time_signature.denominator >= 1,
                            0 <= sub <= 255,
                    ;
                    assert(beats@[b as int] <= 255 * 255) by (nonlinear_arith)
                        requires
                            beats@[b as int] as int == b * per_beat,
                            b < 255,
                            0 <= per_beat <= 255,
                    ;
                    lemma_offset_fits(beats@[b as int] as int, tempo_bpm as int, sub as int);
                }
                let time_offset = grid.position_offset(beats[b], tempo_bpm);
                events.push(
                    MidiEvent {
                        time_offset,
                        note: CLICK_NOTE,
                        velocity: CLICK_VELOCITY,
                        event_type: MidiEventType::NoteOn,
                    },
                );
                events.push(
                    MidiEvent {
                        time_offset: time_offset + CLICK_RELEASE_NANOS,
                        note: CLICK_NOTE,
                        velocity: 0,
                        event_type: MidiEventType::NoteOff,
                    },
                );
                assert(events@ =~= clicks_upto(pattern.time_signature, sub, tempo_bpm as int, b + 1));
                b = b + 1;
            }
        }
        let ghost clicks = events@;
        assert(clicks == (if include_click {
            clicks_upto(pattern.time_signature, sub, tempo_bpm as int, pattern.time_signature.numerator as int)
        } else {
            Seq::<MidiEvent>::empty()
        }));
        let mut i: usize = 0;
        while i < pattern.steps.len()
            invariant
                tempo_bpm > 0,
                grid.subdivision == sub,
                sub == pattern.subdivision,
                sub > 0,
                i <= pattern.steps@.len(),
                pattern.steps@.len() <= MAX_PATTERN_STEPS,
                events@ == clicks + kicks_upto(pattern.steps@, sub, tempo_bpm as int, i as int),
            decreases pattern.steps@.len() - i,
        {
            if pattern.steps[i] {
                proof {
                    lemma_offset_fits(i as int, tempo_bpm as int, sub as int);
                }
                let time_offset = grid.position_offset(i, tempo_bpm);
                events.push(
                    MidiEvent {
                        time_offset,
                        note: KICK_NOTE,
                        velocity: KICK_VELOCITY,
                        event_type: MidiEventType::NoteOn,
                    },
                );
                events.push(
                    MidiEvent {
                        time_offset: time_offset + KICK_RELEASE_NANOS,
                        note: KICK_NOTE,
                        velocity: 0,
                        event_type: MidiEventType::NoteOff,
                    },
                );
            }
            assert(events@ =~= clicks + kicks_upto(pattern.steps@, sub, tempo_bpm as int, i + 1));
            i = i + 1;
        }
        sort_by_time(&events)
    }

    /// Length of the count-in, in nanoseconds: four beats.
    pub fn count_in_duration(&self, tempo_bpm: u16) -> (r: u64)
        requires
            tempo_bpm > 0,
        ensures
            r as int == beat_offset_of(COUNT_IN_BEATS as int, tempo_bpm as int),
    {
        assert((COUNT_IN_BEATS * NANOS_PER_MINUTE) as int / (tempo_bpm as int) <= COUNT_IN_BEATS
            * NANOS_PER_MINUTE) by (nonlinear_arith)
            requires
                tempo_bpm >= 1,
        ;
        COUNT_IN_BEATS * NANOS_PER_MINUTE / tempo_bpm as u64
    }

    /// Length of one pass of the pattern, in nanoseconds: the start of the
    /// position just after the grid.
    pub fn pattern_duration(&self, pattern: &Pattern, tempo_bpm: u16) -> (r: u64)
        requires
            tempo_bpm > 0,
            pattern.subdivision > 0,
            pattern.time_signature.denominator > 0,
        ensures
            r as int == position_offset_of(
                total_positions_of(
                    pattern.time_signature,
                    pattern.subdivision,
                    pattern.num_measures,
                ),
                tempo_bpm as int,
                pattern.subdivision as int,
            ),
    {
        let grid = BeatGrid::new(pattern.time_signature, pattern.subdivision, pattern.num_measures);
        let total = grid.total_positions();
        proof {
            assert(total <= 63 * 1020 * 255);
            lemma_offset_fits(total as int, tempo_bpm as int, pattern.subdivision as int);
        }
        grid.position_offset(total, tempo_bpm)
    }
}

impl Default for MidiEngine {
    fn default() -> (r: Self)
        ensures
            r.channel == MIDI_CHANNEL,
    {
        Self::new()
    }
}

} // verus!
