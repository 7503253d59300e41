use vstd::prelude::*;

verus! {

/// Musical time signature: beats per measure over the note value of a beat.
#[derive(Debug, Clone, Copy, PartialEq, Eq, Structural)]
pub struct TimeSignature {
    /// Beats per measure (4 in 4/4).
    pub numerator: u8,
    /// Note value of one beat (4 = quarter note).
    pub denominator: u8,
}

impl TimeSignature {
    /// Creates a time signature from its two parts.
    pub fn new(numerator: u8, denominator: u8) -> (r: Self)
        ensures
            r.numerator == numerator,
            r.denominator == denominator,
    {
        TimeSignature { numerator, denominator }
    }

    /// Common time.
    pub fn four_four() -> (r: Self)
        ensures
            r == (TimeSignature { numerator: 4, denominator: 4 }),
    {
        Self::new(4, 4)
    }

    /// Waltz time.
    pub fn three_four() -> (r: Self)
        ensures
            r == (TimeSignature { numerator: 3, denominator: 4 }),
    {
        Self::new(3, 4)
    }

    /// Compound duple time.
    pub fn six_eight() -> (r: Self)
        ensures
            r == (TimeSignature { numerator: 6, denominator: 8 }),
    {
        Self::new(6, 8)
    }

    /// March time.
    pub fn two_four() -> (r: Self)
        ensures
            r == (TimeSignature { numerator: 2, denominator: 4 }),
    {
        Self::new(2, 4)
    }

    /// Five beats of a quarter.
    pub fn five_four() -> (r: Self)
        ensures
            r == (TimeSignature { numerator: 5, denominator: 4 }),
    {
        Self::new(5, 4)
    }

    /// Seven beats of an eighth.
    pub fn seven_eight() -> (r: Self)
        ensures
            r == (TimeSignature { numerator: 7, denominator: 8 }),
    {
        Self::new(7, 8)
    }

    /// Whether this is the one signature the generator supports.
    pub open spec fn is_four_four(self) -> bool {
        self.numerator == 4 && self.denominator == 4
    }
}

impl Default for TimeSignature {
    fn default() -> (r: Self)
        ensures
            r == (TimeSignature { numerator: 4, denominator: 4 }),
    {
        Self::four_four()
    }
}

} // verus!
