use vstd::prelude::*;

use std::time::SystemTime;
use uuid::Uuid;

use crate::complexity::ComplexityLevel;
use crate::stamps::{fresh_id, now};
use crate::time_signature::TimeSignature;

verus! {

/// Number of kicks among the steps.
pub open spec fn kick_count(s: Seq<bool>) -> nat
    decreases s.len(),
{
    if s.len() == 0 {
        0
    } else {
        kick_count(s.drop_last()) + if s.last() { 1nat } else { 0nat }
    }
}

/// The `n` steps from index `i` on all equal `v`.
pub open spec fn window_all(s: Seq<bool>, i: int, n: int, v: bool) -> bool {
    forall|j: int| i <= j < i + n ==> #[trigger] s[j] == v
}

/// Some run of at least `n` consecutive steps equal to `v` exists.
pub open spec fn has_run(s: Seq<bool>, v: bool, n: int) -> bool {
    exists|i: int| 0 <= i && i + n <= s.len() && #[trigger] window_all(s, i, n, v)
}

/// Number of indices below `n` at which `a` and `b` differ.
pub open spec fn diff_count(a: Seq<bool>, b: Seq<bool>, n: int) -> nat
    decreases n,
{
    if n <= 0 {
        0
    } else {
        diff_count(a, b, n - 1) + if a[n - 1] != b[n - 1] { 1nat } else { 0nat }
    }
}

/// Number of index-aligned positions at which two step sequences differ,
/// over the length of the shorter one.
pub open spec fn hamming(a: Seq<bool>, b: Seq<bool>) -> nat {
    diff_count(a, b, if a.len() <= b.len() { a.len() as int } else { b.len() as int })
}

/// The Hamming distance as a `u32`, saturating at `u32::MAX` (reached only
/// by sequences of over four billion steps).
pub open spec fn hamming_u32(a: Seq<bool>, b: Seq<bool>) -> u32 {
    if hamming(a, b) <= u32::MAX {
        hamming(a, b) as u32
    } else {
        u32::MAX
    }
}

/// The first rule of a valid pattern that a candidate breaks.
#[derive(Debug, Clone, Copy, PartialEq, Eq, Structural)]
pub enum ValidationFailure {
    /// There is no kick at all.
    NoKick,
    /// Position 0 is a rest.
    MissingDownbeat,
    /// Kicks per position fall outside [1/8, 1/2].
    DensityOutOfRange { kicks: usize, positions: usize },
    /// Three or more kicks in a row.
    KickRunTooLong,
    /// No two rests in a row anywhere.
    NoLongRest,
    /// Nine or more rests in a row.
    RestRunTooLong,
}

/// The outcome of validating a step sequence: the rules are checked in
/// order and the first one broken is reported.
pub open spec fn validation_of(s: Seq<bool>) -> Result<(), ValidationFailure> {
    let k = kick_count(s);
    if k == 0 {
        Err(ValidationFailure::NoKick)
    } else if !s[0] {
        Err(ValidationFailure::MissingDownbeat)
    } else if 8 * k < s.len() || 2 * k > s.len() {
        Err(ValidationFailure::DensityOutOfRange { kicks: k as usize, positions: s.len() as usize })
    } else if has_run(s, true, 3) {
        Err(ValidationFailure::KickRunTooLong)
    } else if !has_run(s, false, 2) {
        Err(ValidationFailure::NoLongRest)
    } else if has_run(s, false, 9) {
        Err(ValidationFailure::RestRunTooLong)
    } else {
        Ok(())
    }
}

/// A step sequence that satisfies every rule of a pattern.
pub open spec fn is_valid_steps(s: Seq<bool>) -> bool {
    validation_of(s) is Ok
}

/// A rhythm of kicks and rests on a grid; never changed once built.
#[derive(Debug, Clone)]
pub struct Pattern {
    /// Unique identifier.
    pub id: Uuid,
    /// One entry per grid position: `true` for a kick, `false` for a rest.
    pub steps: Vec<bool>,
    /// Time signature of the grid.
    pub time_signature: TimeSignature,
    /// Grid resolution (16 = sixteenth notes).
    pub subdivision: u8,
    /// Number of measures.
    pub num_measures: u8,
    /// Complexity the pattern was generated for.
    pub complexity_level: ComplexityLevel,
    /// When the pattern was made.
    pub created_at: SystemTime,
}

proof fn lemma_kick_count_bound(s: Seq<bool>)
    ensures
        kick_count(s) <= s.len(),
    decreases s.len(),
{
    if s.len() > 0 {
        lemma_kick_count_bound(s.drop_last());
    }
}

/// Setting one step to a kick adds one kick if it was a rest, none
/// otherwise.
pub proof fn lemma_kick_count_set(s: Seq<bool>, i: int)
    requires
        0 <= i < s.len(),
    ensures
        kick_count(s.update(i, true)) == kick_count(s) + if s[i] { 0int } else { 1int },
    decreases s.len(),
{
    let u = s.update(i, true);
    if i == s.len() - 1 {
        assert(u.drop_last() =~= s.drop_last());
    } else {
        assert(u.drop_last() =~= s.drop_last().update(i, true));
        lemma_kick_count_set(s.drop_last(), i);
    }
}

/// A sequence whose only kick is at index 0 has one kick.
pub proof fn lemma_kick_count_downbeat_only(n: nat)
    requires
        n >= 1,
    ensures
        kick_count(Seq::new(n, |i: int| i == 0)) == 1,
    decreases n,
{
    let s = Seq::new(n, |i: int| i == 0);
    if n > 1 {
        assert(s.drop_last() =~= Seq::new((n - 1) as nat, |i: int| i == 0));
        lemma_kick_count_downbeat_only((n - 1) as nat);
        assert(!s.last());
    } else {
        assert(s.drop_last() =~= Seq::<bool>::empty());
        assert(kick_count(Seq::<bool>::empty()) == 0);
        assert(s.last());
    }
}

proof fn lemma_no_kick_count_zero(s: Seq<bool>)
    requires
        forall|i: int| 0 <= i < s.len() ==> !s[i],
    ensures
        kick_count(s) == 0,
    decreases s.len(),
{
    if s.len() > 0 {
        lemma_no_kick_count_zero(s.drop_last());
    }
}

/// Whether `steps` hold a run of at least `n` consecutive values `v`.
pub fn has_run_of(steps: &Vec<bool>, v: bool, n: usize) -> (r: bool)
    requires
        n > 0,
    ensures
        r == has_run(steps@, v, n as int),
{
    let len = steps.len();
    if n > len {
        assert(!has_run(steps@, v, n as int));
        return false;
    }
    let mut i: usize = 0;
    while i <= len - n
        invariant
            len == steps@.len(),
            n <= len,
            n > 0,
            forall|k: int| 0 <= k < i ==> !#[trigger] window_all(steps@, k, n as int, v),
        decreases len - i,
    {
        let mut j: usize = 0;
        while j < n && steps[i + j] == v
            invariant
                i + n <= len,
                len == steps@.len(),
                j <= n,
                forall|m: int| i <= m < i + j ==> steps@[m] == v,
            decreases n - j,
        {
            j = j + 1;
        }
        if j == n {
            assert(window_all(steps@, i as int, n as int, v));
            return true;
        }
        assert(!window_all(steps@, i as int, n as int, v)) by {
            assert(steps@[i + j] != v);
        }
        i = i + 1;
    }
    assert forall|k: int| 0 <= k && k + n <= steps@.len() implies !window_all(
        steps@,
        k,
        n as int,
        v,
    ) by {
        assert(k < i);
    }
    false
}

/// Number of kicks in `steps`.
pub fn count_kicks(steps: &Vec<bool>) -> (r: usize)
    ensures
        r == kick_count(steps@),
{
    let mut count: usize = 0;
    let mut i: usize = 0;
    while i < steps.len()
        invariant
            i <= steps@.len(),
            count == kick_count(steps@.subrange(0, i as int)),
            count <= i,
        decreases steps@.len() - i,
    {
        assert(steps@.subrange(0, i + 1).drop_last() =~= steps@.subrange(0, i as int));
        if steps[i] {
            count = count + 1;
        }
        i = i + 1;
    }
    assert(steps@.subrange(0, i as int) =~= steps@);
    count
}

/// Checks the rules of a pattern in order and reports the first one broken.
pub fn validate(steps: &Vec<bool>) -> (r: Result<(), ValidationFailure>)
    ensures
        r == validation_of(steps@),
{
    let kicks = count_kicks(steps);
    if kicks == 0 {
        return Err(ValidationFailure::NoKick);
    }
    proof {
        if steps@.len() == 0 {
            lemma_no_kick_count_zero(steps@);
        }
        lemma_kick_count_bound(steps@);
    }
    if !steps[0] {
        return Err(ValidationFailure::MissingDownbeat);
    }
    let len = steps.len();
    if kicks < len / 8 + if len % 8 == 0 { 0 } else { 1 } || kicks > len / 2 {
        return Err(ValidationFailure::DensityOutOfRange { kicks, positions: len });
    }
    if has_run_of(steps, true, 3) {
        return Err(ValidationFailure::KickRunTooLong);
    }
    if !has_run_of(steps, false, 2) {
        return Err(ValidationFailure::NoLongRest);
    }
    if has_run_of(steps, false, 9) {
        return Err(ValidationFailure::RestRunTooLong);
    }
    Ok(())
}

/// Number of index-aligned positions at which `a` and `b` differ, over the
/// length of the shorter one, saturating at `u32::MAX`.
pub fn hamming_steps(a: &Vec<bool>, b: &Vec<bool>) -> (r: u32)
    ensures
        r == hamming_u32(a@, b@),
{
    let n = if a.len() <= b.len() {
        a.len()
    } else {
        b.len()
    };
    let mut count: usize = 0;
    let mut i: usize = 0;
    while i < n
        invariant
            n <= a@.len(),
            n <= b@.len(),
            n == (if a@.len() <= b@.len() { a@.len() } else { b@.len() }),
            i <= n,
            count == diff_count(a@, b@, i as int),
            count <= i,
        decreases n - i,
    {
        if a[i] != b[i] {
            count = count + 1;
        }
        i = i + 1;
    }
    if count <= u32::MAX as usize {
        count as u32
    } else {
        u32::MAX
    }
}

impl Pattern {
    /// Builds a one-measure pattern of sixteenth notes, with a fresh
    /// identifier and the current time.
    pub fn new(
        steps: Vec<bool>,
        time_signature: TimeSignature,
        complexity_level: ComplexityLevel,
    ) -> (r: Self)
        ensures
            r.steps@ == steps@,
            r.time_signature == time_signature,
            r.complexity_level == complexity_level,
            r.subdivision == 16,
            r.num_measures == 1,
    {
        Pattern {
            id: fresh_id(),
            steps,
            time_signature,
            subdivision: 16,
            num_measures: 1,
            complexity_level,
            created_at: now(),
        }
    }

    /// Indices of the kicks, in increasing order.
    pub fn note_positions(&self) -> (r: Vec<usize>)
        ensures
            forall|i: int, j: int| 0 <= i < j < r@.len() ==> r@[i] < r@[j],
            forall|i: int| 0 <= i < r@.len() ==> #[trigger] r@[i] < self.steps@.len(),
            forall|i: int| 0 <= i < r@.len() ==> self.steps@[#[trigger] r@[i] as int],
            forall|k: int|
                0 <= k < self.steps@.len() && #[trigger] self.steps@[k] ==> exists|i: int|
                    0 <= i < r@.len() && r@[i] == k,
    {
        let mut out: Vec<usize> = Vec::new();
        let mut i: usize = 0;
        while i < self.steps.len()
            invariant
                i <= self.steps@.len(),
                forall|a: int, b: int| 0 <= a < b < out@.len() ==> out@[a] < out@[b],
                forall|a: int| 0 <= a < out@.len() ==> #[trigger] out@[a] < i,
                forall|a: int| 0 <= a < out@.len() ==> self.steps@[#[trigger] out@[a] as int],
                forall|k: int|
                    0 <= k < i && #[trigger] self.steps@[k] ==> exists|a: int|
                        0 <= a < out@.len() && out@[a] == k,
            decreases self.steps@.len() - i,
        {
            let ghost prev = out@;
            if self.steps[i] {
                out.push(i);
            }
            assert forall|k: int|
                0 <= k < i + 1 && #[trigger] self.steps@[k] implies exists|a: int|
                    0 <= a < out@.len() && out@[a] == k by {
                if k < i {
                    let a = choose|a: int| 0 <= a < prev.len() && prev[a] == k;
                    assert(out@[a] == k);
                } else {
                    assert(out@[out@.len() - 1] == k);
                }
            }
            i = i + 1;
        }
        out
    }

    /// Density as the exact fraction `(kicks, positions)`.
    pub fn density(&self) -> (r: (usize, usize))
        ensures
            r.0 == kick_count(self.steps@),
            r.1 == self.steps@.len(),
    {
        (count_kicks(&self.steps), self.steps.len())
    }

    /// Number of index-aligned positions at which the two patterns differ,
    /// saturating at `u32::MAX`.
    pub fn hamming_distance(&self, other: &Pattern) -> (r: u32)
        ensures
            r == hamming_u32(self.steps@, other.steps@),
    {
        hamming_steps(&self.steps, &other.steps)
    }

    /// Checks the pattern's steps against the rules of a valid pattern.
    pub fn validate_steps(&self) -> (r: Result<(), ValidationFailure>)
        ensures
            r == validation_of(self.steps@),
    {
        validate(&self.steps)
    }
}

/// What validity means, rule by rule: a kick on the downbeat, between one
/// kick in eight positions and one in two, never three kicks in a row, two
/// rests in a row somewhere, never nine rests in a row.
pub proof fn lemma_valid_steps_rules(s: Seq<bool>)
    requires
        is_valid_steps(s),
    ensures
        s.len() > 0,
        s[0],
        8 * kick_count(s) >= s.len(),
        2 * kick_count(s) <= s.len(),
        forall|i: int| 0 <= i && i + 3 <= s.len() ==> !window_all(s, i, 3, true),
        exists|i: int| 0 <= i && i + 2 <= s.len() && window_all(s, i, 2, false),
        forall|i: int| 0 <= i && i + 9 <= s.len() ==> !window_all(s, i, 9, false),
{
    if s.len() == 0 {
        lemma_no_kick_count_zero(s);
    }
}

} // verus!
