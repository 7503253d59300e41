use vstd::prelude::*;

use crate::complexity::{lower_of, lowercase, ComplexityLevel};
use crate::text::str_eq;
use crate::time_signature::TimeSignature;

verus! {

/// Why a command-line value was refused.
#[derive(Debug, Clone, Copy, PartialEq, Eq, Structural)]
pub enum ArgError {
    /// Not a complexity name or shorthand.
    UnknownComplexity,
    /// Not of the form `numerator/denominator`.
    TimeSignatureShape,
    /// The numerator is not a number from 0 to 255.
    BadNumerator,
    /// The denominator is not a number from 0 to 255.
    BadDenominator,
    /// The denominator is not 1, 2, 4, 8 or 16.
    NonStandardDenominator(u8),
    /// The numerator is zero.
    ZeroNumerator,
}

/// A decimal digit.
pub open spec fn is_digit(c: char) -> bool {
    48 <= c as u32 <= 57
}

/// Value of a decimal digit.
pub open spec fn digit_value(c: char) -> int {
    c as u32 - 48
}

/// Value of a string of decimal digits.
pub open spec fn decimal_value(d: Seq<char>) -> int
    decreases d.len(),
{
    if d.len() == 0 {
        0
    } else {
        decimal_value(d.drop_last()) * 10 + digit_value(d.last())
    }
}

/// The digits of an unsigned number, after an optional leading `+`.
pub open spec fn unsigned_digits(s: Seq<char>) -> Seq<char> {
    if s.len() > 0 && s[0] == '+' {
        s.drop_first()
    } else {
        s
    }
}

/// What std's parse of an unsigned integer type with largest value `max`
/// gives: an optional `+`, then one or more decimal digits, with a value
/// of at most `max`.
pub open spec fn parse_unsigned_of(s: Seq<char>, max: int) -> Option<int> {
    let d = unsigned_digits(s);
    if d.len() > 0 && (forall|i: int| 0 <= i < d.len() ==> is_digit(#[trigger] d[i]))
        && decimal_value(d) <= max {
        Some(decimal_value(d))
    } else {
        None
    }
}

proof fn lemma_decimal_prefix_grows(d: Seq<char>, k: int)
    requires
        0 <= k <= d.len(),
        forall|i: int| 0 <= i < d.len() ==> is_digit(#[trigger] d[i]),
    ensures
        decimal_value(d.subrange(0, k)) <= decimal_value(d),
        decimal_value(d) >= 0,
    decreases d.len(),
{
    if d.len() > 0 {
        let p = d.drop_last();
        assert forall|i: int| 0 <= i < p.len() implies is_digit(#[trigger] p[i]) by {
            assert(p[i] == d[i]);
        }
        if k == d.len() {
            assert(d.subrange(0, k) =~= d);
            lemma_decimal_prefix_grows(p, k - 1);
        } else {
            assert(d.subrange(0, k) =~= p.subrange(0, k));
            lemma_decimal_prefix_grows(p, k);
        }
        assert(is_digit(d.last()));
    }
}

/// Parses an unsigned decimal number of at most `max`, as std parses an
/// unsigned integer type whose largest value is `max`.
pub fn parse_unsigned(s: &str, max: u32) -> (r: Option<u32>)
    ensures
        match r {
            Some(v) => parse_unsigned_of(s@, max as int) == Some(v as int),
            None => parse_unsigned_of(s@, max as int) is None,
        },
{
    let len = s.unicode_len();
    let start: usize = if len > 0 && s.get_char(0) == '+' {
        1
    } else {
        0
    };
    let ghost d = unsigned_digits(s@);
    assert(d =~= s@.subrange(start as int, len as int));
    if start >= len {
        return None;
    }
    let mut value: u32 = 0;
    let mut i: usize = start;
    while i < len
        invariant
            len == s@.len(),
            start <= i <= len,
            d == s@.subrange(start as int, len as int),
            d == unsigned_digits(s@),
            forall|j: int| 0 <= j < i - start ==> is_digit(#[trigger] d[j]),
            value as int == decimal_value(d.subrange(0, i - start)),
            value <= max,
        decreases len - i,
    {
        let c = s.get_char(i);
        assert(d[i - start] == c);
        if (c as u32) < 48 || (c as u32) > 57 {
            assert(!is_digit(d[i - start]));
            assert(!(forall|j: int| 0 <= j < d.len() ==> is_digit(#[trigger] d[j])));
            return None;
        }
        let digit = c as u32 - 48;
        assert(d.subrange(0, i - start + 1).drop_last() =~= d.subrange(0, i - start));
        assert(d.subrange(0, i - start + 1).last() == c);
        if digit > max {
            proof {
                let pre = d.subrange(0, i - start + 1);
                assert(decimal_value(pre) == decimal_value(pre.drop_last()) * 10 + digit_value(pre.last()));
                if forall|j: int| 0 <= j < d.len() ==> is_digit(#[trigger] d[j]) {
                    lemma_decimal_prefix_grows(d, i - start + 1);
                    assert(decimal_value(d) > max);
                }
            }
            return None;
        }
        if value > (max - digit) / 10 {
            proof {
                assert(value * 10 + digit > max) by (nonlinear_arith)
                    requires
                        value > (max - digit) / 10,
                        digit <= max,
                        value >= 0,
                        digit >= 0,
                ;
                let pre = d.subrange(0, i - start + 1);
                assert(decimal_value(pre) == decimal_value(pre.drop_last()) * 10 + digit_value(pre.last()));
                if forall|j: int| 0 <= j < d.len() ==> is_digit(#[trigger] d[j]) {
                    lemma_decimal_prefix_grows(d, i - start + 1);
                    assert(decimal_value(d) > max);
                }
            }
            return None;
        }
        assert(value * 10 + digit <= max) by (nonlinear_arith)
            requires
                value <= (max - digit) / 10,
                digit <= max,
                value >= 0,
        ;
        value = value * 10 + digit;
        i = i + 1;
    }
    assert(d.subrange(0, len - start) =~= d);
    Some(value)
}

/// The level a lower-case command-line word names: its full name, its
/// initial, or its rank.
pub open spec fn complexity_of_arg(w: Seq<char>) -> Option<ComplexityLevel> {
    if w == seq!['s', 'i', 'm', 'p', 'l', 'e'] || w == seq!['s'] || w == seq!['1'] {
        Some(ComplexityLevel::Simple)
    } else if w == seq!['m', 'e', 'd', 'i', 'u', 'm'] || w == seq!['m'] || w == seq!['2'] {
        Some(ComplexityLevel::Medium)
    } else if w == seq!['c', 'o', 'm', 'p', 'l', 'e', 'x'] || w == seq!['c'] || w == seq!['3'] {
        Some(ComplexityLevel::Complex)
    } else {
        None
    }
}

/// Reads a complexity level from a lower-case command-line word.
pub fn complexity_from_lowered_arg(w: &str) -> (r: Result<ComplexityLevel, ArgError>)
    ensures
        match complexity_of_arg(w@) {
            Some(c) => r == Ok::<ComplexityLevel, ArgError>(c),
            None => r == Err::<ComplexityLevel, ArgError>(ArgError::UnknownComplexity),
        },
{
    proof {
        reveal_strlit("simple");
        reveal_strlit("medium");
        reveal_strlit("complex");
        reveal_strlit("s");
        reveal_strlit("m");
        reveal_strlit("c");
        reveal_strlit("1");
        reveal_strlit("2");
        reveal_strlit("3");
        assert("simple"@ =~= seq!['s', 'i', 'm', 'p', 'l', 'e']);
        assert("medium"@ =~= seq!['m', 'e', 'd', 'i', 'u', 'm']);
        assert("complex"@ =~= seq!['c', 'o', 'm', 'p', 'l', 'e', 'x']);
        assert("s"@ =~= seq!['s']);
        assert("m"@ =~= seq!['m']);
        assert("c"@ =~= seq!['c']);
        assert("1"@ =~= seq!['1']);
        assert("2"@ =~= seq!['2']);
        assert("3"@ =~= seq!['3']);
    }
    if str_eq(w, "simple") || str_eq(w, "s") || str_eq(w, "1") {
        Ok(ComplexityLevel::Simple)
    } else if str_eq(w, "medium") || str_eq(w, "m") || str_eq(w, "2") {
        Ok(ComplexityLevel::Medium)
    } else if str_eq(w, "complex") || str_eq(w, "c") || str_eq(w, "3") {
        Ok(ComplexityLevel::Complex)
    } else {
        Err(ArgError::UnknownComplexity)
    }
}

/// Reads a complexity level from a command-line word in any letter case.
pub fn parse_complexity(s: &str) -> (r: Result<ComplexityLevel, ArgError>)
    ensures
        match complexity_of_arg(lower_of(s@)) {
            Some(c) => r == Ok::<ComplexityLevel, ArgError>(c),
            None => r == Err::<ComplexityLevel, ArgError>(ArgError::UnknownComplexity),
        },
{
    let lowered = lowercase(s);
    complexity_from_lowered_arg(lowered.as_str())
}

/// `s` holds exactly one `/`, at index `p`.
pub open spec fn single_slash_at(s: Seq<char>, p: int) -> bool {
    &&& 0 <= p < s.len()
    &&& s[p] == '/'
    &&& forall|j: int| 0 <= j < s.len() && j != p ==> #[trigger] s[j] != '/'
}

/// A denominator in common use.
pub open spec fn standard_denominator(d: int) -> bool {
    d == 1 || d == 2 || d == 4 || d == 8 || d == 16
}

/// The outcome of reading `numerator/denominator` split at the slash `p`.
pub open spec fn time_signature_parts_of(s: Seq<char>, p: int) -> Result<TimeSignature, ArgError> {
    match parse_unsigned_of(s.subrange(0, p), 255) {
        None => Err(ArgError::BadNumerator),
        Some(n) => match parse_unsigned_of(s.subrange(p + 1, s.len() as int), 255) {
            None => Err(ArgError::BadDenominator),
            Some(d) => if !standard_denominator(d) {
                Err(ArgError::NonStandardDenominator(d as u8))
            } else if n == 0 {
                Err(ArgError::ZeroNumerator)
            } else {
                Ok(TimeSignature { numerator: n as u8, denominator: d as u8 })
            },
        },
    }
}

/// Reads a time signature written `numerator/denominator`.
pub fn parse_time_signature(s: &str) -> (r: Result<TimeSignature, ArgError>)
    ensures
        (exists|p: int| single_slash_at(s@, p)) <== (r != Err::<TimeSignature, ArgError>(
            ArgError::TimeSignatureShape,
        )),
        forall|p: int| single_slash_at(s@, p) ==> r == time_signature_parts_of(s@, p),
{
    let len = s.unicode_len();
    let mut slash: usize = 0;
    let mut count: usize = 0;
    let mut i: usize = 0;
    while i < len
        invariant
            len == s@.len(),
            i <= len,
            count <= 2,
            count == 0 ==> forall|j: int| 0 <= j < i ==> #[trigger] s@[j] != '/',
            count == 1 ==> slash < i && s@[slash as int] == '/' && forall|j: int|
                0 <= j < i && j != slash ==> #[trigger] s@[j] != '/',
            count == 2 ==> forall|p: int| !single_slash_at(s@, p),
        decreases len - i,
    {
        if s.get_char(i) == '/' {
            if count == 0 {
                slash = i;
                count = 1;
            } else if count == 1 {
                assert forall|p: int| !single_slash_at(s@, p) by {
                    if single_slash_at(s@, p) {
                        assert(p == slash || p == i);
                    }
                }
                count = 2;
            }
        }
        i = i + 1;
    }
    if count != 1 {
        assert forall|p: int| !single_slash_at(s@, p) by {
            if single_slash_at(s@, p) {
                assert(s@[p] == '/');
            }
        }
        return Err(ArgError::TimeSignatureShape);
    }
    assert forall|p: int| single_slash_at(s@, p) implies p == slash by {
        assert(s@[slash as int] == '/');
    }
    assert(single_slash_at(s@, slash as int));
    let numerator = match parse_unsigned(s.substring_char(0, slash), 255) {
        Some(n) => n as u8,
        None => {
            return Err(ArgError::BadNumerator);
        },
    };
    let denominator = match parse_unsigned(s.substring_char(slash + 1, len), 255) {
        Some(d) => d as u8,
        None => {
            return Err(ArgError::BadDenominator);
        },
    };
    if denominator != 1 && denominator != 2 && denominator != 4 && denominator != 8 && denominator
        != 16 {
        return Err(ArgError::NonStandardDenominator(denominator));
    }
    if numerator == 0 {
        return Err(ArgError::ZeroNumerator);
    }
    Ok(TimeSignature::new(numerator, denominator))
}

/// Why a typed tempo was refused.
#[derive(Debug, Clone, Copy, PartialEq, Eq, Structural)]
pub enum TempoError {
    /// Not a number from 0 to 65535.
    NotANumber,
    /// A number outside 40-300.
    OutOfRange(u16),
}

/// Slowest accepted tempo.
pub const MIN_TEMPO_BPM: u16 = 40;

/// Fastest accepted tempo.
pub const MAX_TEMPO_BPM: u16 = 300;

/// Reads a typed tempo and checks that it lies within 40-300 BPM.
pub fn parse_tempo(s: &str) -> (r: Result<u16, TempoError>)
    ensures
        match parse_unsigned_of(s@, 65535) {
            None => r == Err::<u16, TempoError>(TempoError::NotANumber),
            Some(t) => if MIN_TEMPO_BPM <= t <= MAX_TEMPO_BPM {
                r == Ok::<u16, TempoError>(t as u16)
            } else {
                r == Err::<u16, TempoError>(TempoError::OutOfRange(t as u16))
            },
        },
{
    match parse_unsigned(s, 65535) {
        None => Err(TempoError::NotANumber),
        Some(t) => {
            let t = t as u16;
            if t >= MIN_TEMPO_BPM && t <= MAX_TEMPO_BPM {
                Ok(t)
            } else {
                Err(TempoError::OutOfRange(t))
            }
        },
    }
}

} // verus!
