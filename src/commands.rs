use vstd::prelude::*;

use crate::complexity::ComplexityLevel;

verus! {

/// What a key press asks for during practice.
#[derive(Debug, Clone, Copy, PartialEq, Eq, Structural)]
pub enum Command {
    /// Show the current pattern.
    Reveal,
    /// Make and play a new pattern.
    NewPattern,
    /// Change the tempo.
    ChangeTempo,
    /// Change the complexity of new patterns.
    ChangeComplexity,
    /// Stop and leave.
    Quit,
}

/// The command bound to a key, in either letter case.
pub open spec fn command_of(c: char) -> Option<Command> {
    if c == 'r' || c == 'R' {
        Some(Command::Reveal)
    } else if c == 'n' || c == 'N' {
        Some(Command::NewPattern)
    } else if c == 't' || c == 'T' {
        Some(Command::ChangeTempo)
    } else if c == 'c' || c == 'C' {
        Some(Command::ChangeComplexity)
    } else if c == 'q' || c == 'Q' {
        Some(Command::Quit)
    } else {
        None
    }
}

/// The command bound to a key; other keys are ignored.
pub fn command_for_key(c: char) -> (r: Option<Command>)
    ensures
        r == command_of(c),
{
    if c == 'r' || c == 'R' {
        Some(Command::Reveal)
    } else if c == 'n' || c == 'N' {
        Some(Command::NewPattern)
    } else if c == 't' || c == 'T' {
        Some(Command::ChangeTempo)
    } else if c == 'c' || c == 'C' {
        Some(Command::ChangeComplexity)
    } else if c == 'q' || c == 'Q' {
        Some(Command::Quit)
    } else {
        None
    }
}

/// The complexity picked by pressing 1, 2 or 3; any other key cancels.
pub fn complexity_for_choice(c: char) -> (r: Option<ComplexityLevel>)
    ensures
        c == '1' ==> r == Some(ComplexityLevel::Simple),
        c == '2' ==> r == Some(ComplexityLevel::Medium),
        c == '3' ==> r == Some(ComplexityLevel::Complex),
        c != '1' && c != '2' && c != '3' ==> r is None,
{
    if c == '1' {
        Some(ComplexityLevel::Simple)
    } else if c == '2' {
        Some(ComplexityLevel::Medium)
    } else if c == '3' {
        Some(ComplexityLevel::Complex)
    } else {
        None
    }
}

} // verus!
