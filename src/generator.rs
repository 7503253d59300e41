use vstd::prelude::*;

use std::collections::VecDeque;

use rand::distributions::{Distribution, WeightedError, WeightedIndex};
use rand::rngs::ThreadRng;
use rand::Rng;

use crate::beat_grid::{position_strength_of, BeatGrid};
use crate::complexity::ComplexityLevel;
use crate::pattern::{
    count_kicks, is_valid_steps, kick_count, lemma_kick_count_downbeat_only, lemma_kick_count_set,
    validate, Pattern,
};
use crate::time_signature::TimeSignature;
use crate::unique::{steps_unique, unique_against};

verus! {

/// rand's per-thread generator; opaque to the proofs.
#[verifier::external_type_specification]
#[verifier::external_body]
pub struct ExThreadRng(ThreadRng);

/// A weighted distribution over indices, held as rand's `WeightedIndex`
/// (whose declaration Verus refuses); opaque to the proofs.
#[verifier::external_body]
pub struct IndexSampler {
    dist: WeightedIndex<u32>,
}

/// rand's error for a weight list it cannot draw from.
#[verifier::external_type_specification]
#[verifier::external_body]
pub struct ExWeightedError(WeightedError);

/// Number of indices a sampler draws from.
pub uninterp spec fn index_count(d: IndexSampler) -> nat;

/// Relies on rand's `thread_rng`: a handle to the thread's generator.
#[verifier::external_body]
fn thread_local_rng() -> ThreadRng {
    rand::thread_rng()
}

/// Relies on rand's `WeightedIndex::new`: unsigned weights are never
/// invalid, so it fails exactly when the list is empty or every weight is
/// zero, and otherwise draws from the indices of the list. Its running total
/// must not overflow `u32`, which the bounds below ensure.
#[verifier::external_body]
fn weighted_index(weights: &Vec<u32>) -> (r: Result<IndexSampler, WeightedError>)
    requires
        weights@.len() <= 65536,
        forall|i: int| 0 <= i < weights@.len() ==> weights@[i] <= 65535,
    ensures
        r is Ok <==> (weights@.len() > 0 && exists|i: int|
            0 <= i < weights@.len() && weights@[i] > 0),
        r matches Ok(d) ==> index_count(d) == weights@.len(),
{
    WeightedIndex::new(weights).map(|dist| IndexSampler { dist })
}

/// Relies on rand's `Distribution::sample` for `WeightedIndex`: the drawn
/// index is one of the distribution's indices.
#[verifier::external_body]
fn draw_index(d: &IndexSampler, rng: &mut ThreadRng) -> (r: usize)
    ensures
        r < index_count(*d),
{
    d.dist.sample(rng)
}

/// Relies on rand's `Rng::gen` for `usize`: any value may come back.
#[verifier::external_body]
fn draw_usize(rng: &mut ThreadRng) -> usize {
    rng.gen::<usize>()
}

/// Number of grid positions of the one-measure sixteenth-note grid the
/// generator fills.
pub const GRID_POSITIONS: usize = 16;

/// Draws made to fill one candidate before it is judged as it stands.
pub const DRAWS_PER_CANDIDATE: usize = 100;

/// Candidates tried by `generate`.
pub const PLAIN_ATTEMPTS: usize = 1000;

/// Candidates tried at each distance tier by `generate_unique`: ten cycles
/// of a hundred.
pub const ATTEMPTS_PER_TIER: usize = 1000;

/// Candidates tried by `generate_unique` over all three tiers.
pub const ESCALATION_ATTEMPTS: usize = 3000;

/// Weight of position `i` after scaling for complexity, in twentieths:
/// Simple doubles on-beats and halves off-beats, Medium keeps both, Complex
/// keeps on-beats and multiplies off-beats by one and a half.
pub open spec fn adjusted_weight(w: u32, i: int, c: ComplexityLevel) -> int {
    let on_beat = i % 4 == 0;
    match c {
        ComplexityLevel::Simple => if on_beat { 4 * w } else { w as int },
        ComplexityLevel::Medium => 2 * w,
        ComplexityLevel::Complex => if on_beat { 2 * w } else { 3 * w },
    }
}

/// Inclusive range of the total kick count aimed at for each level.
pub open spec fn kick_range(c: ComplexityLevel) -> (int, int) {
    match c {
        ComplexityLevel::Simple => (2, 4),
        ComplexityLevel::Medium => (4, 6),
        ComplexityLevel::Complex => (6, 8),
    }
}

/// A sixteen-step candidate with its only kick on the downbeat.
pub open spec fn downbeat_only() -> Seq<bool> {
    Seq::new(GRID_POSITIONS as nat, |i: int| i == 0)
}

/// Kick count a candidate aims at, picked by a raw draw from the inclusive
/// range `min_kicks..=max_kicks`.
pub open spec fn target_of(min_kicks: int, max_kicks: int, target_draw: usize) -> int {
    min_kicks + (target_draw as int) % (max_kicks - min_kicks + 1)
}

/// The candidate after the first `n` position draws: from the downbeat
/// alone, each draw makes its position a kick while the kick count is below
/// `target` (a draw on a kick changes nothing).
pub open spec fn apply_draws(target: int, draws: Seq<usize>, n: int) -> Seq<bool>
    decreases n,
{
    if n <= 0 {
        downbeat_only()
    } else {
        let prev = apply_draws(target, draws, n - 1);
        if kick_count(prev) < target {
            prev.update(draws[n - 1] as int, true)
        } else {
            prev
        }
    }
}

/// The candidate made from a target draw and position draws, of which at
/// most the first hundred are used.
pub open spec fn filled_candidate(
    min_kicks: int,
    max_kicks: int,
    target_draw: usize,
    draws: Seq<usize>,
) -> Seq<bool> {
    apply_draws(
        target_of(min_kicks, max_kicks, target_draw),
        draws,
        if draws.len() < DRAWS_PER_CANDIDATE { draws.len() as int } else { DRAWS_PER_CANDIDATE as int },
    )
}

/// What every candidate looks like, whatever was drawn: sixteen steps, a
/// kick on the downbeat, and between one kick and `max_kicks`.
pub open spec fn candidate_shape(c: Seq<bool>, max_kicks: int) -> bool {
    &&& c.len() == GRID_POSITIONS
    &&& c[0]
    &&& 1 <= kick_count(c) <= max_kicks
}

/// `c` is the candidate of some hundred position draws and target draw for
/// a complexity level.
pub open spec fn is_filled(c: Seq<bool>, complexity: ComplexityLevel) -> bool {
    exists|target_draw: usize, draws: Seq<usize>|
        draws.len() == DRAWS_PER_CANDIDATE && (forall|i: int|
            0 <= i < draws.len() ==> draws[i] < GRID_POSITIONS) && #[trigger] filled_candidate(
            kick_range(complexity).0,
            kick_range(complexity).1,
            target_draw,
            draws,
        ) == c
}

/// Every candidate in `drawn` was filled from draws for `complexity`, and
/// has the shape that guarantees.
pub open spec fn all_filled(drawn: Seq<Seq<bool>>, complexity: ComplexityLevel) -> bool {
    forall|j: int|
        0 <= j < drawn.len() ==> is_filled(#[trigger] drawn[j], complexity) && candidate_shape(
            drawn[j],
            kick_range(complexity).1,
        )
}

/// Builds a candidate from random draws: a kick on the downbeat, then the
/// position draws applied in order (at most a hundred) while the kick count
/// is below the target picked by `target_draw`.
pub fn fill_candidate(min_kicks: usize, max_kicks: usize, target_draw: usize, draws: &Vec<usize>) -> (r:
    Vec<bool>)
    requires
        1 <= min_kicks <= max_kicks <= GRID_POSITIONS,
        forall|i: int| 0 <= i < draws@.len() ==> #[trigger] draws@[i] < GRID_POSITIONS,
    ensures
        r@ == filled_candidate(min_kicks as int, max_kicks as int, target_draw, draws@),
        candidate_shape(r@, max_kicks as int),
{
    let mut steps: Vec<bool> = Vec::new();
    let mut i: usize = 0;
    while i < GRID_POSITIONS
        invariant
            i <= GRID_POSITIONS,
            steps@.len() == i,
            forall|j: int| 0 <= j < i ==> steps@[j] == (j == 0),
        decreases GRID_POSITIONS - i,
    {
        steps.push(i == 0);
        i = i + 1;
    }
    proof {
        assert(steps@ =~= downbeat_only());
        lemma_kick_count_downbeat_only(GRID_POSITIONS as nat);
    }
    let target = min_kicks + target_draw % (max_kicks - min_kicks + 1);
    let limit = if draws.len() < DRAWS_PER_CANDIDATE {
        draws.len()
    } else {
        DRAWS_PER_CANDIDATE
    };
    let mut kicks = count_kicks(&steps);
    let mut a: usize = 0;
    while a < limit
        invariant
            forall|i: int| 0 <= i < draws@.len() ==> #[trigger] draws@[i] < GRID_POSITIONS,
            limit <= draws@.len(),
            a <= limit,
            target as int == target_of(min_kicks as int, max_kicks as int, target_draw),
            target <= max_kicks,
            steps@ == apply_draws(target as int, draws@, a as int),
            kicks == kick_count(steps@),
            candidate_shape(steps@, max_kicks as int),
        decreases limit - a,
    {
        if kicks < target {
            let idx = draws[a];
            proof {
                lemma_kick_count_set(steps@, idx as int);
            }
            steps.set(idx, true);
            kicks = count_kicks(&steps);
        }
        a = a + 1;
    }
    steps
}

/// A candidate is accepted at a tier when it is a valid pattern and differs
/// from each pattern of the history in at least `tier` positions.
pub open spec fn acceptable(steps: Seq<bool>, history: Seq<Pattern>, tier: u32) -> bool {
    is_valid_steps(steps) && unique_against(steps, history, tier as int)
}

/// Distance tier in force for the `k`-th candidate of an escalating search:
/// a thousand candidates at 3, then a thousand at 2, then a thousand at 1.
pub open spec fn tier_of_attempt(k: int) -> u32 {
    if k < 1000 {
        3
    } else if k < 2000 {
        2
    } else {
        1
    }
}

/// Candidate `k` is the first that the escalating search accepts.
pub open spec fn first_accepted_at(cands: Seq<Seq<bool>>, history: Seq<Pattern>, k: int) -> bool {
    &&& 0 <= k < cands.len()
    &&& k < ESCALATION_ATTEMPTS
    &&& acceptable(cands[k], history, tier_of_attempt(k))
    &&& forall|j: int| 0 <= j < k ==> !acceptable(#[trigger] cands[j], history, tier_of_attempt(j))
}

/// No candidate within the attempt budget is accepted at its tier.
pub open spec fn none_accepted(cands: Seq<Seq<bool>>, history: Seq<Pattern>) -> bool {
    forall|j: int|
        0 <= j < cands.len() && j < ESCALATION_ATTEMPTS ==> !acceptable(
            #[trigger] cands[j],
            history,
            tier_of_attempt(j),
        )
}

/// Tier in force for candidate `k` of a search: the escalating schedule,
/// or tier 3 throughout.
pub open spec fn search_tier(escalate: bool, k: int) -> u32 {
    if escalate {
        tier_of_attempt(k)
    } else {
        3
    }
}

/// Candidates a search may try.
pub open spec fn search_budget(escalate: bool) -> int {
    if escalate {
        ESCALATION_ATTEMPTS as int
    } else {
        PLAIN_ATTEMPTS as int
    }
}

/// `drawn` ends with the first candidate the search accepts, `steps`, at
/// tier `tier`.
pub open spec fn search_found(
    drawn: Seq<Seq<bool>>,
    history: Seq<Pattern>,
    escalate: bool,
    steps: Seq<bool>,
    tier: u32,
) -> bool {
    &&& 1 <= drawn.len() <= search_budget(escalate)
    &&& drawn.last() == steps
    &&& tier == search_tier(escalate, drawn.len() - 1)
    &&& acceptable(steps, history, tier)
    &&& forall|j: int|
        0 <= j < drawn.len() - 1 ==> !acceptable(
            #[trigger] drawn[j],
            history,
            search_tier(escalate, j),
        )
}

/// `drawn` spends the whole budget of the search without an accepted
/// candidate.
pub open spec fn search_exhausted(drawn: Seq<Seq<bool>>, history: Seq<Pattern>, escalate: bool) -> bool {
    &&& drawn.len() == search_budget(escalate)
    &&& forall|j: int|
        0 <= j < drawn.len() ==> !acceptable(#[trigger] drawn[j], history, search_tier(escalate, j))
}

/// Why no pattern came back.
#[derive(Debug, Clone, Copy, PartialEq, Eq, Structural)]
pub enum GenerateError {
    /// Generation is only supported in 4/4.
    UnsupportedSignature,
    /// No candidate met any distance tier within the attempt budget.
    GenerationExhausted,
}

/// Distance tier in force for the `k`-th candidate of an escalating search,
/// or `None` once the attempt budget is spent.
pub fn tier_for_attempt(k: usize) -> (r: Option<u32>)
    ensures
        k < ESCALATION_ATTEMPTS ==> r == Some(tier_of_attempt(k as int)),
        k >= ESCALATION_ATTEMPTS ==> r is None,
{
    if k < ATTEMPTS_PER_TIER {
        Some(3)
    } else if k < 2 * ATTEMPTS_PER_TIER {
        Some(2)
    } else if k < ESCALATION_ATTEMPTS {
        Some(1)
    } else {
        None
    }
}

/// Whether a candidate is a valid pattern that differs from every pattern of
/// `history` in at least `tier` positions.
pub fn accepts(steps: &Vec<bool>, history: &VecDeque<Pattern>, tier: u32) -> (r: bool)
    ensures
        r == acceptable(steps@, history@, tier),
{
    validate(steps).is_ok() && steps_unique(steps, history, tier)
}

/// The escalation policy applied to a given sequence of candidates: the
/// index of the first one accepted at the tier in force when it was drawn,
/// with that tier; `None` when no candidate within the budget is accepted.
pub fn first_acceptable(candidates: &Vec<Vec<bool>>, history: &VecDeque<Pattern>) -> (r: Option<
    (usize, u32),
>)
    ensures
        ({
            let cands = candidates@.map_values(|c: Vec<bool>| c@);
            match r {
                Some((k, t)) => first_accepted_at(cands, history@, k as int) && t
                    == tier_of_attempt(k as int),
                None => none_accepted(cands, history@),
            }
        }),
{
    let ghost cands = candidates@.map_values(|c: Vec<bool>| c@);
    let mut k: usize = 0;
    while k < candidates.len()
        invariant
            cands == candidates@.map_values(|c: Vec<bool>| c@),
            k <= candidates@.len(),
            forall|j: int| 0 <= j < k && j < ESCALATION_ATTEMPTS ==> !acceptable(
                #[trigger] cands[j],
                history@,
                tier_of_attempt(j),
            ),
        decreases candidates@.len() - k,
    {
        match tier_for_attempt(k) {
            None => {
                return None;
            },
            Some(tier) => {
                assert(cands[k as int] == candidates@[k as int]@);
                if accepts(&candidates[k], history, tier) {
                    return Some((k, tier));
                }
            },
        }
        k = k + 1;
    }
    None
}

/// When candidate `k` is accepted at its tier, the first accepted candidate
/// is `k` or an earlier one.
proof fn lemma_first_accepted_exists(cands: Seq<Seq<bool>>, history: Seq<Pattern>, k: int)
    requires
        0 <= k < cands.len(),
        k < ESCALATION_ATTEMPTS,
        acceptable(cands[k], history, tier_of_attempt(k)),
    ensures
        exists|j: int| 0 <= j <= k && first_accepted_at(cands, history, j),
    decreases k,
{
    if exists|j: int| 0 <= j < k && acceptable(#[trigger] cands[j], history, tier_of_attempt(j)) {
        let j = choose|j: int| 0 <= j < k && acceptable(#[trigger] cands[j], history, tier_of_attempt(j));
        lemma_first_accepted_exists(cands, history, j);
    } else {
        assert(first_accepted_at(cands, history, k));
    }
}

/// A candidate accepted at a tier is accepted at every lower tier.
pub proof fn lemma_acceptable_monotone(steps: Seq<bool>, history: Seq<Pattern>, hi: u32, lo: u32)
    requires
        lo <= hi,
        acceptable(steps, history, hi),
    ensures
        acceptable(steps, history, lo),
{
}

/// When no candidate can meet tier 2 against the history but one drawn in
/// the tier-1 phase meets tier 1, the escalating search does not fail: it
/// accepts a candidate at tier 1, that one or an earlier one of the phase.
pub proof fn lemma_tier_one_not_missed(cands: Seq<Seq<bool>>, history: Seq<Pattern>, k: int)
    requires
        2 * ATTEMPTS_PER_TIER <= k < ESCALATION_ATTEMPTS,
        k < cands.len(),
        forall|j: int| 0 <= j < cands.len() ==> !acceptable(#[trigger] cands[j], history, 2),
        acceptable(cands[k], history, 1),
    ensures
        exists|j: int|
            2 * ATTEMPTS_PER_TIER <= j <= k && first_accepted_at(cands, history, j)
                && tier_of_attempt(j) == 1,
{
    lemma_first_accepted_exists(cands, history, k);
    let j = choose|j: int| 0 <= j <= k && first_accepted_at(cands, history, j);
    if tier_of_attempt(j) != 1 {
        lemma_acceptable_monotone(cands[j], history, tier_of_attempt(j), 2);
    }
}

/// With an empty history, a valid candidate drawn in the tier-3 phase ends
/// the search at tier 3, at that candidate or an earlier one.
pub proof fn lemma_empty_history_strict_tier(cands: Seq<Seq<bool>>, k: int)
    requires
        0 <= k < ATTEMPTS_PER_TIER,
        k < cands.len(),
        is_valid_steps(cands[k]),
    ensures
        exists|j: int|
            0 <= j <= k && first_accepted_at(cands, Seq::<Pattern>::empty(), j) && tier_of_attempt(j)
                == 3,
{
    let h = Seq::<Pattern>::empty();
    assert(acceptable(cands[k], h, tier_of_attempt(k)));
    lemma_first_accepted_exists(cands, h, k);
}

/// Proposes kick patterns by weighted sampling over a beat grid.
pub struct WeightedGenerator {
    rng: ThreadRng,
}

impl WeightedGenerator {
    /// Creates a generator drawing from the thread's random source.
    pub fn new() -> Self {
        WeightedGenerator { rng: thread_local_rng() }
    }

    /// Metrical weights of the sixteen positions of a 4/4 measure of
    /// sixteenths: the strength of each position, in tenths (10 = downbeat).
    pub fn base_weights_4_4() -> (r: Vec<u32>)
        ensures
            r@.len() == GRID_POSITIONS,
            forall|i: int|
                0 <= i < GRID_POSITIONS ==> #[trigger] r@[i] as int == position_strength_of(
                    TimeSignature { numerator: 4, denominator: 4 },
                    16,
                    i,
                ),
            forall|i: int| 0 <= i < r@.len() ==> 0 < #[trigger] r@[i] <= 10,
    {
        let grid = BeatGrid::new(TimeSignature::four_four(), 16, 1);
        let mut weights: Vec<u32> = Vec::new();
        let mut i: usize = 0;
        while i < GRID_POSITIONS
            invariant
                grid.time_signature == (TimeSignature { numerator: 4, denominator: 4 }),
                grid.subdivision == 16,
                i <= GRID_POSITIONS,
                weights@.len() == i,
                forall|j: int|
                    0 <= j < i ==> #[trigger] weights@[j] as int == position_strength_of(
                        TimeSignature { numerator: 4, denominator: 4 },
                        16,
                        j,
                    ),
                forall|j: int| 0 <= j < i ==> 0 < #[trigger] weights@[j] <= 10,
            decreases GRID_POSITIONS - i,
        {
            let w = grid.position_strength(i);
            weights.push(w as u32);
            i = i + 1;
        }
        weights
    }

    fn adjust_weights_for_complexity(&self, base: &Vec<u32>, complexity: ComplexityLevel) -> (r:
        Vec<u32>)
        requires
            forall|i: int| 0 <= i < base@.len() ==> base@[i] <= 10,
        ensures
            r@.len() == base@.len(),
            forall|i: int|
                0 <= i < r@.len() ==> #[trigger] r@[i] as int == adjusted_weight(
                    base@[i],
                    i,
                    complexity,
                ),
    {
        let mut out: Vec<u32> = Vec::new();
        let mut i: usize = 0;
        while i < base.len()
            invariant
                i <= base@.len(),
                forall|j: int| 0 <= j < base@.len() ==> base@[j] <= 10,
                out@.len() == i,
                forall|j: int|
                    0 <= j < i ==> #[trigger] out@[j] as int == adjusted_weight(
                        base@[j],
                        j,
                        complexity,
                    ),
            decreases base@.len() - i,
        {
            let w = base[i];
            let on_beat = i % 4 == 0;
            let scaled = match complexity {
                ComplexityLevel::Simple => if on_beat { 4 * w } else { w },
                ComplexityLevel::Medium => 2 * w,
                ComplexityLevel::Complex => if on_beat { 2 * w } else { 3 * w },
            };
            out.push(scaled);
            i = i + 1;
        }
        out
    }

    fn target_kicks_for_complexity(&self, complexity: ComplexityLevel) -> (r: (usize, usize))
        ensures
            r.0 as int == kick_range(complexity).0,
            r.1 as int == kick_range(complexity).1,
    {
        match complexity {
            ComplexityLevel::Simple => (2, 4),
            ComplexityLevel::Medium => (4, 6),
            ComplexityLevel::Complex => (6, 8),
        }
    }

    /// The distribution over the sixteen positions for a complexity level.
    fn position_distribution(&self, complexity: ComplexityLevel) -> (r: Option<IndexSampler>)
        ensures
            r matches Some(d) && index_count(d) == GRID_POSITIONS,
    {
        let base = Self::base_weights_4_4();
        let weights = self.adjust_weights_for_complexity(&base, complexity);
        assert(weights@[0] > 0);
        match weighted_index(&weights) {
            Ok(d) => Some(d),
            Err(_) => None,
        }
    }

    /// Fills one candidate from fresh draws: a target kick count from the
    /// complexity's range, then a hundred weighted position draws.
    fn draw_candidate(&mut self, dist: &IndexSampler, complexity: ComplexityLevel, min_kicks: usize, max_kicks: usize) -> (r:
        Vec<bool>)
        requires
            index_count(*dist) == GRID_POSITIONS,
            min_kicks as int == kick_range(complexity).0,
            max_kicks as int == kick_range(complexity).1,
        ensures
            is_filled(r@, complexity),
            candidate_shape(r@, max_kicks as int),
    {
        let target_draw = draw_usize(&mut self.rng);
        let mut draws: Vec<usize> = Vec::new();
        let mut i: usize = 0;
        while i < DRAWS_PER_CANDIDATE
            invariant
                index_count(*dist) == GRID_POSITIONS,
                i <= DRAWS_PER_CANDIDATE,
                draws@.len() == i,
                forall|j: int| 0 <= j < i ==> #[trigger] draws@[j] < GRID_POSITIONS,
            decreases DRAWS_PER_CANDIDATE - i,
        {
            draws.push(draw_index(dist, &mut self.rng));
            i = i + 1;
        }
        let r = fill_candidate(min_kicks, max_kicks, target_draw, &draws);
        assert(filled_candidate(
            kick_range(complexity).0,
            kick_range(complexity).1,
            target_draw,
            draws@,
        ) == r@);
        r
    }

    /// Draws candidates and returns the first one accepted at the tier in
    /// force when it was drawn, with that tier.
    fn search(
        &mut self,
        time_signature: TimeSignature,
        complexity: ComplexityLevel,
        history: &VecDeque<Pattern>,
        escalate: bool,
    ) -> (r: (Result<(Pattern, u32), GenerateError>, Ghost<Seq<Seq<bool>>>))
        ensures
            match r.0 {
                Ok((p, t)) => {
                    &&& time_signature.is_four_four()
                    &&& p.time_signature == time_signature
                    &&& p.complexity_level == complexity
                    &&& p.subdivision == 16
                    &&& p.num_measures == 1
                    &&& p.steps@.len() == GRID_POSITIONS
                    &&& search_found(r.1@, history@, escalate, p.steps@, t)
                    &&& all_filled(r.1@, complexity)
                },
                Err(GenerateError::UnsupportedSignature) => !time_signature.is_four_four(),
                Err(GenerateError::GenerationExhausted) => {
                    &&& time_signature.is_four_four()
                    &&& search_exhausted(r.1@, history@, escalate)
                    &&& all_filled(r.1@, complexity)
                },
            },
    {
        if time_signature.numerator != 4 || time_signature.denominator != 4 {
            return (Err(GenerateError::UnsupportedSignature), Ghost(Seq::empty()));
        }
        let dist = match self.position_distribution(complexity) {
            Some(d) => d,
            None => {
                return (Err(GenerateError::GenerationExhausted), Ghost(Seq::empty()));
            },
        };
        let (min_kicks, max_kicks) = self.target_kicks_for_complexity(complexity);
        let budget = if escalate {
            ESCALATION_ATTEMPTS
        } else {
            PLAIN_ATTEMPTS
        };
        let ghost mut drawn: Seq<Seq<bool>> = Seq::empty();
        let mut k: usize = 0;
        while k < budget
            invariant
                budget == search_budget(escalate),
                time_signature.is_four_four(),
                index_count(dist) == GRID_POSITIONS,
                min_kicks as int == kick_range(complexity).0,
                max_kicks as int == kick_range(complexity).1,
                k <= budget,
                drawn.len() == k,
                all_filled(drawn, complexity),
                forall|j: int|
                    0 <= j < k ==> !acceptable(#[trigger] drawn[j], history@, search_tier(escalate, j)),
            decreases budget - k,
        {
            let tier: u32 = if escalate {
                match tier_for_attempt(k) {
                    Some(t) => t,
                    None => 1,
                }
            } else {
                3
            };
            let steps = self.draw_candidate(&dist, complexity, min_kicks, max_kicks);
            proof {
                let prev = drawn;
                drawn = drawn.push(steps@);
                assert forall|j: int| 0 <= j < drawn.len() implies is_filled(
                    #[trigger] drawn[j],
                    complexity,
                ) && candidate_shape(drawn[j], kick_range(complexity).1) by {
                    if j < prev.len() {
                        assert(drawn[j] == prev[j]);
                    }
                }
            }
            if accepts(&steps, history, tier) {
                let p = Pattern::new(steps, time_signature, complexity);
                return (Ok((p, tier)), Ghost(drawn));
            }
            k = k + 1;
        }
        (Err(GenerateError::GenerationExhausted), Ghost(drawn))
    }

    /// Generates a valid pattern that differs from every pattern of
    /// `history` in at least 3 positions, trying up to a thousand candidates.
    pub fn generate(
        &mut self,
        time_signature: TimeSignature,
        complexity: ComplexityLevel,
        history: &VecDeque<Pattern>,
    ) -> (r: Result<Pattern, GenerateError>)
        ensures
            match r {
                Ok(p) => {
                    &&& time_signature.is_four_four()
                    &&& p.time_signature == time_signature
                    &&& p.complexity_level == complexity
                    &&& p.subdivision == 16
                    &&& p.num_measures == 1
                    &&& p.steps@.len() == GRID_POSITIONS
                    &&& 1 <= kick_count(p.steps@) <= kick_range(complexity).1
                    &&& acceptable(p.steps@, history@, 3)
                    &&& exists|drawn: Seq<Seq<bool>>|
                        #[trigger] search_found(drawn, history@, false, p.steps@, 3) && all_filled(
                            drawn,
                            complexity,
                        )
                },
                Err(GenerateError::UnsupportedSignature) => !time_signature.is_four_four(),
                Err(GenerateError::GenerationExhausted) => {
                    &&& time_signature.is_four_four()
                    &&& exists|drawn: Seq<Seq<bool>>|
                        #[trigger] search_exhausted(drawn, history@, false) && all_filled(
                            drawn,
                            complexity,
                        )
                },
            },
    {
        let (r, Ghost(drawn)) = self.search(time_signature, complexity, history, false);
        match r {
            Ok((p, t)) => {
                assert(search_found(drawn, history@, false, p.steps@, 3));
                assert(drawn[drawn.len() - 1] == drawn.last());
                Ok(p)
            },
            Err(e) => {
                assert(e == GenerateError::GenerationExhausted ==> search_exhausted(drawn, history@, false));
                Err(e)
            },
        }
    }

    /// Generates a valid pattern unlike the patterns of `history`, relaxing
    /// the required distance from 3 to 2 to 1 when a thousand candidates in a
    /// row fail, and returns it with the distance tier it met.
    pub fn generate_unique(
        &mut self,
        time_signature: TimeSignature,
        complexity: ComplexityLevel,
        history: &VecDeque<Pattern>,
    ) -> (r: Result<(Pattern, u32), GenerateError>)
        ensures
            match r {
                Ok((p, t)) => {
                    &&& time_signature.is_four_four()
                    &&& p.time_signature == time_signature
                    &&& p.complexity_level == complexity
                    &&& p.subdivision == 16
                    &&& p.num_measures == 1
                    &&& p.steps@.len() == GRID_POSITIONS
                    &&& 1 <= kick_count(p.steps@) <= kick_range(complexity).1
                    &&& 1 <= t <= 3
                    &&& acceptable(p.steps@, history@, t)
                    &&& exists|drawn: Seq<Seq<bool>>|
                        #![trigger drawn.last()]
                        first_accepted_at(drawn, history@, drawn.len() - 1)
                            && drawn.last() == p.steps@
                            && t == tier_of_attempt(drawn.len() - 1)
                            && all_filled(drawn, complexity)
                            && (history@.len() == 0 ==> forall|j: int|
                            0 <= j < drawn.len() - 1 ==> !is_valid_steps(#[trigger] drawn[j]))
                },
                Err(GenerateError::UnsupportedSignature) => !time_signature.is_four_four(),
                Err(GenerateError::GenerationExhausted) => {
                    &&& time_signature.is_four_four()
                    &&& exists|drawn: Seq<Seq<bool>>|
                        drawn.len() == ESCALATION_ATTEMPTS && #[trigger] none_accepted(drawn, history@)
                            && all_filled(drawn, complexity)
                },
            },
    {
        let (r, Ghost(drawn)) = self.search(time_signature, complexity, history, true);
        match r {
            Ok((p, t)) => {
                proof {
                    let k = drawn.len() - 1;
                    assert(drawn[k] == drawn.last());
                    assert forall|j: int| 0 <= j < k implies !acceptable(
                        #[trigger] drawn[j],
                        history@,
                        tier_of_attempt(j),
                    ) by {
                        assert(!acceptable(drawn[j], history@, search_tier(true, j)));
                    }
                    assert(first_accepted_at(drawn, history@, k));
                    if history@.len() == 0 {
                        assert forall|j: int| 0 <= j < k implies !is_valid_steps(
                            #[trigger] drawn[j],
                        ) by {
                            assert(!acceptable(drawn[j], history@, tier_of_attempt(j)));
                            assert(unique_against(drawn[j], history@, tier_of_attempt(j) as int));
                        }
                    }
                }
                Ok((p, t))
            },
            Err(e) => {
                proof {
                    if e == GenerateError::GenerationExhausted {
                        assert forall|j: int|
                            0 <= j < drawn.len() && j < ESCALATION_ATTEMPTS implies !acceptable(
                            #[trigger] drawn[j],
                            history@,
                            tier_of_attempt(j),
                        ) by {
                            assert(!acceptable(drawn[j], history@, search_tier(true, j)));
                        }
                        assert(none_accepted(drawn, history@));
                    }
                }
                Err(e)
            },
        }
    }
}

impl Default for WeightedGenerator {
    fn default() -> Self {
        Self::new()
    }
}

} // verus!
