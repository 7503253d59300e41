use vstd::prelude::*;

use std::collections::VecDeque;
use std::time::SystemTime;
use uuid::Uuid;

use crate::complexity::ComplexityLevel;
use crate::pattern::Pattern;
use crate::stamps::{fresh_id, now};
use crate::time_signature::TimeSignature;

verus! {

/// Most patterns kept for uniqueness checks.
pub const HISTORY_CAPACITY: usize = 20;

/// Whether the current pattern is sounding.
#[derive(Debug, Clone, Copy, PartialEq, Eq, Structural)]
pub enum PlaybackState {
    /// Nothing playing (the initial state).
    Stopped,
    /// The device is being driven.
    Playing,
}

impl Default for PlaybackState {
    fn default() -> (r: Self)
        ensures
            r == PlaybackState::Stopped,
    {
        PlaybackState::Stopped
    }
}

/// The history after accepting `p`: the oldest pattern leaves first once
/// the history is full.
pub open spec fn history_after(history: Seq<Pattern>, p: Pattern) -> Seq<Pattern> {
    if history.len() >= HISTORY_CAPACITY {
        history.drop_first().push(p)
    } else {
        history.push(p)
    }
}

/// One sitting of practice.
#[derive(Debug)]
pub struct PracticeSession {
    /// Unique session identifier.
    pub session_id: Uuid,
    /// Pattern now playing or shown.
    pub current_pattern: Option<Pattern>,
    /// Recently accepted patterns, oldest first.
    pub pattern_history: VecDeque<Pattern>,
    /// Playback tempo in beats per minute (40-300).
    pub tempo_bpm: u16,
    /// Complexity of new patterns.
    pub complexity_level: ComplexityLevel,
    /// Time signature of new patterns.
    pub time_signature: TimeSignature,
    /// Playback status.
    pub playback_state: PlaybackState,
    /// Whether the current pattern has been shown.
    pub pattern_revealed: bool,
    /// Patterns made in this session.
    pub patterns_generated: u32,
    /// When the session began.
    pub session_start: SystemTime,
    /// Latest user interaction.
    pub last_activity: SystemTime,
}

impl PracticeSession {
    /// The history never holds more than its capacity.
    pub open spec fn wf(&self) -> bool {
        self.pattern_history@.len() <= HISTORY_CAPACITY
    }

    /// A fresh session: no pattern, empty history, stopped.
    pub fn new(tempo_bpm: u16, complexity_level: ComplexityLevel, time_signature: TimeSignature) -> (r:
        Self)
        ensures
            r.wf(),
            r.current_pattern is None,
            r.pattern_history@.len() == 0,
            r.tempo_bpm == tempo_bpm,
            r.complexity_level == complexity_level,
            r.time_signature == time_signature,
            r.playback_state == PlaybackState::Stopped,
            !r.pattern_revealed,
            r.patterns_generated == 0,
    {
        let start = now();
        PracticeSession {
            session_id: fresh_id(),
            current_pattern: None,
            pattern_history: VecDeque::with_capacity(HISTORY_CAPACITY),
            tempo_bpm,
            complexity_level,
            time_signature,
            playback_state: PlaybackState::Stopped,
            pattern_revealed: false,
            patterns_generated: 0,
            session_start: start,
            last_activity: now(),
        }
    }

    /// Appends `pattern` to the history, dropping the oldest one first when
    /// the history is full.
    pub fn add_to_history(&mut self, pattern: Pattern)
        ensures
            final(self).pattern_history@ == history_after(old(self).pattern_history@, pattern),
            old(self).wf() ==> final(self).wf(),
            final(self).current_pattern == old(self).current_pattern,
            final(self).tempo_bpm == old(self).tempo_bpm,
            final(self).complexity_level == old(self).complexity_level,
            final(self).time_signature == old(self).time_signature,
            final(self).patterns_generated == old(self).patterns_generated,
            final(self).pattern_revealed == old(self).pattern_revealed,
    {
        if self.pattern_history.len() >= HISTORY_CAPACITY {
            let _ = self.pattern_history.pop_front();
        }
        self.pattern_history.push_back(pattern);
    }

    /// Records a user interaction now.
    pub fn update_activity(&mut self)
        ensures
            final(self).pattern_history@ == old(self).pattern_history@,
            final(self).current_pattern == old(self).current_pattern,
            final(self).tempo_bpm == old(self).tempo_bpm,
            final(self).complexity_level == old(self).complexity_level,
            final(self).time_signature == old(self).time_signature,
            final(self).patterns_generated == old(self).patterns_generated,
            final(self).pattern_revealed == old(self).pattern_revealed,
    {
        self.last_activity = now();
    }
}

impl Default for PracticeSession {
    fn default() -> (r: Self)
        ensures
            r.wf(),
            r.tempo_bpm == 120,
            r.complexity_level == ComplexityLevel::Medium,
            r.time_signature == (TimeSignature { numerator: 4, denominator: 4 }),
    {
        Self::new(120, ComplexityLevel::Medium, TimeSignature::four_four())
    }
}

} // verus!
