//! Rhythm practice core: beat-grid geometry, kick patterns and their rules,
//! a weighted pattern generator with history-based uniqueness, and the
//! decision logic of a looping event scheduler.

pub mod args;
pub mod ascii;
pub mod beat_grid;
pub mod commands;
pub mod complexity;
pub mod generator;
pub mod midi;
pub mod midi_error;
pub mod pattern;
pub mod scheduler;
pub mod session;
pub mod stamps;
pub mod text;
pub mod time_signature;
pub mod unique;

pub use ascii::pattern_to_ascii;
pub use beat_grid::BeatGrid;
pub use complexity::ComplexityLevel;
pub use generator::WeightedGenerator;
pub use midi::{MidiEngine, MidiEvent, MidiEventType, CLICK_NOTE, KICK_NOTE};
pub use midi_error::MidiError;
pub use pattern::Pattern;
pub use session::{PlaybackState, PracticeSession};
pub use time_signature::TimeSignature;
pub use unique::is_pattern_unique;
