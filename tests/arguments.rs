use kickbeats::args::{parse_complexity, parse_tempo, parse_time_signature, ArgError, TempoError};
use kickbeats::ascii::pattern_to_ascii;
use kickbeats::commands::{command_for_key, complexity_for_choice, Command};
use kickbeats::{ComplexityLevel, Pattern, TimeSignature};

#[test]
fn complexity_words() {
    assert_eq!(parse_complexity("simple"), Ok(ComplexityLevel::Simple));
    assert_eq!(parse_complexity("MEDIUM"), Ok(ComplexityLevel::Medium));
    assert_eq!(parse_complexity("C"), Ok(ComplexityLevel::Complex));
    assert_eq!(parse_complexity("1"), Ok(ComplexityLevel::Simple));
    assert_eq!(parse_complexity("hard"), Err(ArgError::UnknownComplexity));
    assert_eq!(ComplexityLevel::from_str("Complex"), Some(ComplexityLevel::Complex));
    assert_eq!(ComplexityLevel::from_str("s"), None);
}

#[test]
fn time_signatures() {
    assert_eq!(parse_time_signature("4/4"), Ok(TimeSignature::new(4, 4)));
    assert_eq!(parse_time_signature("7/8"), Ok(TimeSignature::seven_eight()));
    assert_eq!(parse_time_signature("+6/8"), Ok(TimeSignature::six_eight()));
    assert_eq!(parse_time_signature("4"), Err(ArgError::TimeSignatureShape));
    assert_eq!(parse_time_signature("4/4/4"), Err(ArgError::TimeSignatureShape));
    assert_eq!(parse_time_signature("x/4"), Err(ArgError::BadNumerator));
    assert_eq!(parse_time_signature("256/4"), Err(ArgError::BadNumerator));
    assert_eq!(parse_time_signature("/4"), Err(ArgError::BadNumerator));
    assert_eq!(parse_time_signature("4/"), Err(ArgError::BadDenominator));
    assert_eq!(parse_time_signature("4/-4"), Err(ArgError::BadDenominator));
    assert_eq!(parse_time_signature("4/3"), Err(ArgError::NonStandardDenominator(3)));
    assert_eq!(parse_time_signature("0/4"), Err(ArgError::ZeroNumerator));
}

#[test]
fn tempos() {
    assert_eq!(parse_tempo("120"), Ok(120));
    assert_eq!(parse_tempo("40"), Ok(40));
    assert_eq!(parse_tempo("300"), Ok(300));
    assert_eq!(parse_tempo("39"), Err(TempoError::OutOfRange(39)));
    assert_eq!(parse_tempo("301"), Err(TempoError::OutOfRange(301)));
    assert_eq!(parse_tempo("fast"), Err(TempoError::NotANumber));
    assert_eq!(parse_tempo("70000"), Err(TempoError::NotANumber));
    assert_eq!(parse_tempo(""), Err(TempoError::NotANumber));
}

#[test]
fn keys() {
    assert_eq!(command_for_key('r'), Some(Command::Reveal));
    assert_eq!(command_for_key('N'), Some(Command::NewPattern));
    assert_eq!(command_for_key('t'), Some(Command::ChangeTempo));
    assert_eq!(command_for_key('C'), Some(Command::ChangeComplexity));
    assert_eq!(command_for_key('q'), Some(Command::Quit));
    assert_eq!(command_for_key('z'), None);
    assert_eq!(complexity_for_choice('2'), Some(ComplexityLevel::Medium));
    assert_eq!(complexity_for_choice('x'), None);
}

#[test]
fn test_pattern_to_ascii_basic() {
    let steps = vec![
        true, false, false, false, true, false, false, false, false, false, true, false, false,
        false, false, true,
    ];
    let pattern = Pattern::new(steps, TimeSignature::four_four(), ComplexityLevel::Medium);
    let ascii = pattern_to_ascii(&pattern);
    assert!(ascii.contains("|1 e + a |2 e + a |3 e + a |4 e + a |"));
    assert!(ascii.contains("X . . . |"));
    assert!(ascii.contains("|X . . . |"));
}

#[test]
fn ascii_is_exact() {
    let steps = vec![
        true, false, false, false, true, false, false, false, false, false, true, false, false,
        false, false, true,
    ];
    let pattern = Pattern::new(steps, TimeSignature::four_four(), ComplexityLevel::Medium);
    assert_eq!(
        pattern_to_ascii(&pattern),
        "|1 e + a |2 e + a |3 e + a |4 e + a |\n|X . . . |X . . . |. . X . |. . . X |\n"
    );
    let long = Pattern::new(vec![false; 4], TimeSignature::new(12, 8), ComplexityLevel::Simple);
    assert!(pattern_to_ascii(&long).contains("|11 e + a |12 e + a |\n"));
}
