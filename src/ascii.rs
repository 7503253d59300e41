use vstd::prelude::*;

use crate::pattern::Pattern;

verus! {

/// The decimal digit for `d` (0-9).
pub open spec fn digit_char(d: int) -> char {
    if d == 0 {
        '0'
    } else if d == 1 {
        '1'
    } else if d == 2 {
        '2'
    } else if d == 3 {
        '3'
    } else if d == 4 {
        '4'
    } else if d == 5 {
        '5'
    } else if d == 6 {
        '6'
    } else if d == 7 {
        '7'
    } else if d == 8 {
        '8'
    } else {
        '9'
    }
}

/// Decimal writing of `n`, without leading zeros.
pub open spec fn decimal_chars(n: nat) -> Seq<char>
    decreases n,
{
    if n < 10 {
        seq![digit_char(n as int)]
    } else {
        decimal_chars(n / 10) + seq![digit_char((n % 10) as int)]
    }
}

/// The label of one beat's four sixteenths.
pub open spec fn beat_label_tail() -> Seq<char> {
    seq![' ', 'e', ' ', '+', ' ', 'a', ' ', '|']
}

/// Labels of beats 1 to `n`.
pub open spec fn header_upto(n: nat) -> Seq<char>
    decreases n,
{
    if n == 0 {
        Seq::empty()
    } else {
        header_upto((n - 1) as nat) + decimal_chars(n) + beat_label_tail()
    }
}

/// Symbol and spacing of step `i`: `X` or `.`, then ` |` after every
/// fourth step and a space otherwise.
pub open spec fn step_cell(kick: bool, i: int) -> Seq<char> {
    (if kick {
        seq!['X']
    } else {
        seq!['.']
    }) + if (i + 1) % 4 == 0 {
        seq![' ', '|']
    } else {
        seq![' ']
    }
}

/// Cells of the first `n` steps.
pub open spec fn row_upto(steps: Seq<bool>, n: int) -> Seq<char>
    decreases n,
{
    if n <= 0 {
        Seq::empty()
    } else {
        row_upto(steps, n - 1) + step_cell(steps[n - 1], n - 1)
    }
}

/// Two lines: the beat labels, then a cell per step.
pub open spec fn ascii_of(p: Pattern) -> Seq<char> {
    seq!['|'] + header_upto(p.time_signature.numerator as nat) + seq!['\n', '|'] + row_upto(
        p.steps@,
        p.steps@.len() as int,
    ) + seq!['\n']
}

fn append_digit(out: &mut String, d: u8)
    requires
        d < 10,
    ensures
        final(out)@ == old(out)@ + seq![digit_char(d as int)],
{
    proof {
        reveal_strlit("0");
        reveal_strlit("1");
        reveal_strlit("2");
        reveal_strlit("3");
        reveal_strlit("4");
        reveal_strlit("5");
        reveal_strlit("6");
        reveal_strlit("7");
        reveal_strlit("8");
        reveal_strlit("9");
    }
    let text = if d == 0 {
        "0"
    } else if d == 1 {
        "1"
    } else if d == 2 {
        "2"
    } else if d == 3 {
        "3"
    } else if d == 4 {
        "4"
    } else if d == 5 {
        "5"
    } else if d == 6 {
        "6"
    } else if d == 7 {
        "7"
    } else if d == 8 {
        "8"
    } else {
        "9"
    };
    assert(text@ =~= seq![digit_char(d as int)]);
    out.append(text);
}

fn append_decimal(out: &mut String, n: u8)
    ensures
        final(out)@ == old(out)@ + decimal_chars(n as nat),
    decreases n,
{
    if n < 10 {
        append_digit(out, n);
    } else {
        append_decimal(out, n / 10);
        append_digit(out, n % 10);
        assert(out@ =~= old(out)@ + decimal_chars(n as nat));
    }
}

/// Draws a pattern as two lines of text: beat labels (`|1 e + a |2 e + a
/// |...`) and one cell per step, `X` for a kick and `.` for a rest, with a
/// bar after every fourth step.
pub fn pattern_to_ascii(pattern: &Pattern) -> (r: String)
    ensures
        r@ == ascii_of(*pattern),
{
    proof {
        reveal_strlit("|");
        reveal_strlit(" e + a |");
        reveal_strlit("\n");
        reveal_strlit("X");
        reveal_strlit(".");
        reveal_strlit(" |");
        reveal_strlit(" ");
        assert(" e + a |"@ =~= beat_label_tail());
        assert("|"@ =~= seq!['|']);
        assert("\n"@ =~= seq!['\n']);
    }
    let mut out = String::new();
    out.append("|");
    let mut beat: u8 = 1;
    let num = pattern.time_signature.numerator;
    while beat <= num && beat != 0
        invariant
            1 <= beat <= 255 || (beat == 0 && num == 255),
            beat != 0 ==> beat <= num + 1,
            out@ == seq!['|'] + header_upto((if beat == 0 { 255 } else { beat - 1 }) as nat),
        decreases 256 - (if beat == 0 { 256 } else { beat as int }),
    {
        append_decimal(&mut out, beat);
        out.append(" e + a |");
        proof {
            reveal_strlit(" e + a |");
            assert(" e + a |"@ =~= beat_label_tail());
            assert(out@ =~= seq!['|'] + header_upto(beat as nat));
        }
        beat = if beat == 255 {
            0
        } else {
            beat + 1
        };
    }
    assert(out@ == seq!['|'] + header_upto(num as nat));
    out.append("\n");
    out.append("|");
    let ghost head = out@;
    assert(head =~= seq!['|'] + header_upto(num as nat) + seq!['\n', '|']);
    let mut i: usize = 0;
    while i < pattern.steps.len()
        invariant
            i <= pattern.steps@.len(),
            out@ == head + row_upto(pattern.steps@, i as int),
        decreases pattern.steps@.len() - i,
    {
        if pattern.steps[i] {
            out.append("X");
        } else {
            out.append(".");
        }
        if i % 4 == 3 {
            out.append(" |");
        } else {
            out.append(" ");
        }
        proof {
            reveal_strlit("X");
            reveal_strlit(".");
            reveal_strlit(" |");
            reveal_strlit(" ");
            assert("X"@ =~= seq!['X']);
            assert("."@ =~= seq!['.']);
            assert(" |"@ =~= seq![' ', '|']);
            assert(" "@ =~= seq![' ']);
            assert((i + 1) % 4 == 0 <==> i % 4 == 3);
            assert(out@ =~= head + row_upto(pattern.steps@, i + 1));
        }
        i = i + 1;
    }
    out.append("\n");
    assert(out@ =~= ascii_of(*pattern));
    out
}

} // verus!
