use vstd::prelude::*;

use crate::time_signature::TimeSignature;

verus! {

/// Nanoseconds in four minutes: one grid position lasts
/// `(60 / tempo) / (subdivision / 4)` seconds, that is
/// `NANOS_PER_FOUR_MINUTES / (tempo * subdivision)` nanoseconds.
pub const NANOS_PER_FOUR_MINUTES: u64 = 240_000_000_000;

/// Nanoseconds in one minute.
pub const NANOS_PER_MINUTE: u64 = 60_000_000_000;

/// Number of grid positions of a grid.
pub open spec fn total_positions_of(sig: TimeSignature, subdivision: u8, num_measures: u8) -> int
    recommends
        sig.denominator > 0,
{
    (subdivision as int / 4) * ((sig.numerator as int * 4) / sig.denominator as int)
        * num_measures as int
}

/// Start of grid position `idx`, in nanoseconds after the start of the grid,
/// rounded down.
pub open spec fn position_offset_of(idx: int, tempo_bpm: int, subdivision: int) -> int
    recommends
        tempo_bpm > 0,
        subdivision > 0,
{
    idx * NANOS_PER_FOUR_MINUTES as int / (tempo_bpm * subdivision)
}

/// Grid positions per beat: the subdivision counts positions per whole
/// note, and a beat is `1 / denominator` of a whole note.
pub open spec fn positions_per_beat(sig: TimeSignature, subdivision: u8) -> int
    recommends
        sig.denominator > 0,
{
    subdivision as int / sig.denominator as int
}

/// Strength, in tenths, of beat `beat` of a measure in the given signature.
pub open spec fn beat_strength_of(sig: TimeSignature, beat: int) -> u8 {
    if beat == 0 {
        10
    } else if sig.numerator == 4 && sig.denominator == 4 {
        if beat == 2 { 7 } else { 4 }
    } else if sig.numerator == 3 && sig.denominator == 4 {
        4
    } else if sig.numerator == 6 && sig.denominator == 8 {
        if beat == 3 { 6 } else { 3 }
    } else if sig.numerator == 2 && sig.denominator == 4 {
        4
    } else if sig.numerator == 5 && sig.denominator == 4 {
        if beat == 2 { 6 } else { 3 }
    } else if sig.numerator == 7 && sig.denominator == 8 {
        if beat == 2 { 6 } else if beat == 4 { 5 } else { 3 }
    } else if beat == sig.numerator as int / 2 {
        6
    } else {
        4
    }
}

/// Strength, in tenths, of grid position `idx`: the downbeat is strongest,
/// other beats follow the signature's table, positions between beats are
/// weakest.
pub open spec fn position_strength_of(
    sig: TimeSignature,
    subdivision: u8,
    idx: int,
) -> u8 {
    let per_beat = positions_per_beat(sig, subdivision);
    if idx == 0 {
        10
    } else if per_beat != 0 && idx % per_beat == 0 {
        beat_strength_of(sig, idx / per_beat)
    } else {
        2
    }
}

/// The rhythmic frame a pattern lives on.
#[derive(Debug, Clone, Copy, PartialEq, Eq, Structural)]
pub struct BeatGrid {
    /// Beats per measure and note value.
    pub time_signature: TimeSignature,
    /// Smallest rhythmic unit (16 = sixteenth notes).
    pub subdivision: u8,
    /// Number of measures in the grid.
    pub num_measures: u8,
}

impl BeatGrid {
    /// Creates a grid.
    pub fn new(time_signature: TimeSignature, subdivision: u8, num_measures: u8) -> (r: Self)
        ensures
            r.time_signature == time_signature,
            r.subdivision == subdivision,
            r.num_measures == num_measures,
    {
        BeatGrid { time_signature, subdivision, num_measures }
    }

    /// Total number of grid positions.
    pub fn total_positions(&self) -> (r: usize)
        requires
            self.time_signature.denominator > 0,
        ensures
            r as int == total_positions_of(
                self.time_signature,
                self.subdivision,
                self.num_measures,
            ),
            r <= 63 * 1020 * 255,
    {
        let per_quarter = self.subdivision as usize / 4;
        let quarters = (self.time_signature.numerator as usize * 4)
            / self.time_signature.denominator as usize;
        assert(per_quarter <= 63 && quarters <= 1020);
        assert(per_quarter * quarters <= 63 * 1020) by (nonlinear_arith)
            requires
                per_quarter <= 63,
                quarters <= 1020,
        ;
        assert(per_quarter * quarters * self.num_measures as usize <= 63 * 1020 * 255)
            by (nonlinear_arith)
            requires
                per_quarter * quarters <= 63 * 1020,
                self.num_measures <= 255,
        ;
        per_quarter * quarters * self.num_measures as usize
    }

    /// Indices of the on-beat positions, one per beat of a measure, evenly
    /// spaced by the positions a beat lasts.
    pub fn beat_positions(&self) -> (r: Vec<usize>)
        requires
            self.time_signature.denominator > 0,
        ensures
            r@.len() == self.time_signature.numerator as int,
            forall|b: int|
                0 <= b < r@.len() ==> #[trigger] r@[b] as int == b * positions_per_beat(
                    self.time_signature,
                    self.subdivision,
                ),
    {
        let per_beat = self.subdivision as usize / self.time_signature.denominator as usize;
        let mut out: Vec<usize> = Vec::new();
        let mut beat: usize = 0;
        while beat < self.time_signature.numerator as usize
            invariant
                per_beat == positions_per_beat(self.time_signature, self.subdivision),
                per_beat <= 255,
                beat <= self.time_signature.numerator,
                out@.len() == beat,
                forall|b: int| 0 <= b < beat ==> #[trigger] out@[b] as int == b * per_beat,
            decreases self.time_signature.numerator - beat,
        {
            assert(beat * per_beat <= 255 * 255) by (nonlinear_arith)
                requires
                    beat <= 255,
                    per_beat <= 255,
            ;
            out.push(beat * per_beat);
            beat = beat + 1;
        }
        out
    }

    /// Metrical strength of position `idx`, in tenths (10 = downbeat).
    pub fn position_strength(&self, idx: usize) -> (r: u8)
        requires
            self.time_signature.denominator > 0,
        ensures
            r == position_strength_of(self.time_signature, self.subdivision, idx as int),
            2 <= r <= 10,
    {
        let per_beat = self.subdivision as usize / self.time_signature.denominator as usize;
        if idx == 0 {
            return 10;
        }
        if per_beat != 0 && idx % per_beat == 0 {
            return self.beat_strength(idx / per_beat);
        }
        2
    }

    fn beat_strength(&self, beat: usize) -> (r: u8)
        ensures
            r == beat_strength_of(self.time_signature, beat as int),
            3 <= r <= 10,
    {
        let num = self.time_signature.numerator;
        let den = self.time_signature.denominator;
        if beat == 0 {
            10
        } else if num == 4 && den == 4 {
            if beat == 2 { 7 } else { 4 }
        } else if num == 3 && den == 4 {
            4
        } else if num == 6 && den == 8 {
            if beat == 3 { 6 } else { 3 }
        } else if num == 2 && den == 4 {
            4
        } else if num == 5 && den == 4 {
            if beat == 2 { 6 } else { 3 }
        } else if num == 7 && den == 8 {
            if beat == 2 { 6 } else if beat == 4 { 5 } else { 3 }
        } else if beat == num as usize / 2 {
            6
        } else {
            4
        }
    }

    /// Start of position `idx`, in nanoseconds after the start of the grid,
    /// at the given tempo (rounded down).
    pub fn position_offset(&self, idx: usize, tempo_bpm: u16) -> (r: u64)
        requires
            tempo_bpm > 0,
            self.subdivision > 0,
            position_offset_of(idx as int, tempo_bpm as int, self.subdivision as int)
                <= u64::MAX,
        ensures
            r as int == position_offset_of(idx as int, tempo_bpm as int, self.subdivision as int),
    {
        assert(idx as u128 * NANOS_PER_FOUR_MINUTES as u128 <= u64::MAX as u128 * 240_000_000_000)
            by (nonlinear_arith)
            requires
                idx <= u64::MAX,
        ;
        let scaled: u128 = idx as u128 * NANOS_PER_FOUR_MINUTES as u128;
        assert(tempo_bpm as u128 * self.subdivision as u128 <= 65535 * 255) by (nonlinear_arith)
            requires
                tempo_bpm <= 65535,
                self.subdivision <= 255,
        ;
        assert(tempo_bpm as u128 * self.subdivision as u128 > 0) by (nonlinear_arith)
            requires
                tempo_bpm > 0,
                self.subdivision > 0,
        ;
        let per_whole: u128 = tempo_bpm as u128 * self.subdivision as u128;
        (scaled / per_whole) as u64
    }

    /// Duration of one grid position at the given tempo, in nanoseconds
    /// (rounded down).
    pub fn seconds_per_position(&self, tempo_bpm: u16) -> (r: u64)
        requires
            tempo_bpm > 0,
            self.subdivision > 0,
        ensures
            r as int == position_offset_of(1, tempo_bpm as int, self.subdivision as int),
    {
        assert(position_offset_of(1, tempo_bpm as int, self.subdivision as int)
            <= NANOS_PER_FOUR_MINUTES) by (nonlinear_arith)
            requires
                tempo_bpm > 0,
                self.subdivision > 0,
        ;
        self.position_offset(1, tempo_bpm)
    }
}

} // verus!
