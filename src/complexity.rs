use vstd::prelude::*;

use crate::text::str_eq;

verus! {

/// How busy and syncopated a generated pattern is.
#[derive(Debug, Clone, Copy, PartialEq, Eq, Structural)]
pub enum ComplexityLevel {
    /// Two to four kicks, mostly on the beat.
    Simple,
    /// Four to six kicks, balanced.
    Medium,
    /// Six to eight kicks, off-beats emphasised.
    Complex,
}

/// What `str::to_lowercase` returns for the given characters.
pub uninterp spec fn lower_of(s: Seq<char>) -> Seq<char>;

/// Relies on std's `str::to_lowercase`: the result depends on the characters
/// alone.
#[verifier::external_body]
pub(crate) fn lowercase(s: &str) -> (r: String)
    ensures
        r@ == lower_of(s@),
{
    s.to_lowercase()
}

/// The level a lower-case word names.
pub open spec fn complexity_of_word(w: Seq<char>) -> Option<ComplexityLevel> {
    if w == seq!['s', 'i', 'm', 'p', 'l', 'e'] {
        Some(ComplexityLevel::Simple)
    } else if w == seq!['m', 'e', 'd', 'i', 'u', 'm'] {
        Some(ComplexityLevel::Medium)
    } else if w == seq!['c', 'o', 'm', 'p', 'l', 'e', 'x'] {
        Some(ComplexityLevel::Complex)
    } else {
        None
    }
}

impl ComplexityLevel {
    /// Parses a level name in any letter case.
    pub fn from_str(s: &str) -> (r: Option<Self>)
        ensures
            r == complexity_of_word(lower_of(s@)),
    {
        let lowered = lowercase(s);
        Self::from_lowercase(lowered.as_str())
    }

    /// Parses a level name already in lower case.
    pub fn from_lowercase(word: &str) -> (r: Option<Self>)
        ensures
            r == complexity_of_word(word@),
    {
        proof {
            reveal_strlit("simple");
            reveal_strlit("medium");
            reveal_strlit("complex");
            assert("simple"@ =~= seq!['s', 'i', 'm', 'p', 'l', 'e']);
            assert("medium"@ =~= seq!['m', 'e', 'd', 'i', 'u', 'm']);
            assert("complex"@ =~= seq!['c', 'o', 'm', 'p', 'l', 'e', 'x']);
        }
        if str_eq(word, "simple") {
            Some(ComplexityLevel::Simple)
        } else if str_eq(word, "medium") {
            Some(ComplexityLevel::Medium)
        } else if str_eq(word, "complex") {
            Some(ComplexityLevel::Complex)
        } else {
            None
        }
    }
}

impl Default for ComplexityLevel {
    fn default() -> (r: Self)
        ensures
            r == ComplexityLevel::Medium,
    {
        ComplexityLevel::Medium
    }
}

} // verus!
