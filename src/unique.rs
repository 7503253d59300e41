use vstd::prelude::*;

use std::collections::VecDeque;

use crate::pattern::{diff_count, hamming, hamming_steps, hamming_u32, Pattern};

verus! {

/// `steps` differ from every pattern of `history` in at least `min_distance`
/// positions.
pub open spec fn unique_against(steps: Seq<bool>, history: Seq<Pattern>, min_distance: int) -> bool {
    forall|i: int| 0 <= i < history.len() ==> hamming(steps, #[trigger] history[i].steps@) >= min_distance
}

proof fn lemma_diff_count_laws(a: Seq<bool>, b: Seq<bool>, n: int)
    requires
        0 <= n,
    ensures
        diff_count(a, a, n) == 0,
        diff_count(a, b, n) == diff_count(b, a, n),
        diff_count(a, b, n) <= n,
    decreases n,
{
    if n > 0 {
        lemma_diff_count_laws(a, b, n - 1);
    }
}

/// A pattern is at distance zero from itself; distance does not depend on
/// the order of the two; and it never exceeds the length of either sequence.
pub proof fn lemma_hamming_laws(a: Seq<bool>, b: Seq<bool>)
    ensures
        hamming(a, a) == 0,
        hamming(a, b) == hamming(b, a),
        hamming(a, b) <= a.len(),
        hamming(a, b) <= b.len(),
        hamming_u32(a, a) == 0,
        hamming_u32(a, b) == hamming_u32(b, a),
        hamming_u32(a, b) <= a.len(),
        hamming_u32(a, b) <= b.len(),
{
    let n = if a.len() <= b.len() { a.len() as int } else { b.len() as int };
    lemma_diff_count_laws(a, b, n);
    lemma_diff_count_laws(a, a, a.len() as int);
}

/// Against an empty history every candidate is unique, whatever the distance
/// asked for.
pub proof fn lemma_empty_history_accepts(steps: Seq<bool>, min_distance: int)
    ensures
        unique_against(steps, Seq::<Pattern>::empty(), min_distance),
{
}

/// Whether `steps` differ from every pattern of `history` in at least
/// `min_distance` positions.
pub fn steps_unique(steps: &Vec<bool>, history: &VecDeque<Pattern>, min_distance: u32) -> (r: bool)
    ensures
        r == unique_against(steps@, history@, min_distance as int),
{
    let mut i: usize = 0;
    while i < history.len()
        invariant
            i <= history@.len(),
            forall|j: int|
                0 <= j < i ==> hamming(steps@, #[trigger] history@[j].steps@) >= min_distance,
        decreases history@.len() - i,
    {
        let distance = hamming_steps(steps, &history[i].steps);
        if distance < min_distance {
            return false;
        }
        i = i + 1;
    }
    true
}

/// Whether `pattern` differs from every pattern of `history` in at least
/// `min_distance` positions.
pub fn is_pattern_unique(pattern: &Pattern, history: &VecDeque<Pattern>, min_distance: u32) -> (r:
    bool)
    ensures
        r == unique_against(pattern.steps@, history@, min_distance as int),
{
    steps_unique(&pattern.steps, history, min_distance)
}

} // verus!
