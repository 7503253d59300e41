use kickbeats::pattern::{validate, ValidationFailure};
use kickbeats::{BeatGrid, ComplexityLevel, Pattern, PlaybackState, PracticeSession, TimeSignature};

fn steps_from(text: &str) -> Vec<bool> {
    text.chars().map(|c| c == 'x').collect()
}

#[test]
fn grid_of_common_time() {
    let grid = BeatGrid::new(TimeSignature::four_four(), 16, 1);
    assert_eq!(grid.total_positions(), 16);
    assert_eq!(grid.beat_positions(), vec![0, 4, 8, 12]);
    assert_eq!(grid.seconds_per_position(120), 125_000_000);
    assert_eq!(grid.position_offset(16, 120), 2_000_000_000);
}

#[test]
fn grid_of_other_signatures() {
    assert_eq!(BeatGrid::new(TimeSignature::six_eight(), 16, 1).total_positions(), 12);
    assert_eq!(BeatGrid::new(TimeSignature::three_four(), 16, 2).total_positions(), 24);
    assert_eq!(BeatGrid::new(TimeSignature::seven_eight(), 16, 1).total_positions(), 12);
    assert_eq!(BeatGrid::new(TimeSignature::five_four(), 8, 1).beat_positions(), vec![0, 2, 4, 6, 8]);
    let six_eight = BeatGrid::new(TimeSignature::six_eight(), 16, 1);
    assert_eq!(six_eight.beat_positions(), vec![0, 2, 4, 6, 8, 10]);
    assert!(six_eight.beat_positions().iter().all(|&p| p < six_eight.total_positions()));
}

#[test]
fn position_strengths_follow_the_table() {
    let grid = BeatGrid::new(TimeSignature::four_four(), 16, 1);
    assert_eq!(grid.position_strength(0), 10);
    assert_eq!(grid.position_strength(4), 4);
    assert_eq!(grid.position_strength(8), 7);
    assert_eq!(grid.position_strength(12), 4);
    assert_eq!(grid.position_strength(3), 2);
    let six_eight = BeatGrid::new(TimeSignature::six_eight(), 16, 1);
    assert_eq!(six_eight.position_strength(6), 6);
    assert_eq!(six_eight.position_strength(4), 3);
    assert_eq!(six_eight.position_strength(3), 2);
    let seven_eight = BeatGrid::new(TimeSignature::seven_eight(), 16, 1);
    assert_eq!(seven_eight.position_strength(4), 6);
    assert_eq!(seven_eight.position_strength(8), 5);
    assert_eq!(seven_eight.position_strength(10), 3);
    let nine_eight = BeatGrid::new(TimeSignature::new(9, 8), 16, 1);
    assert_eq!(nine_eight.position_strength(8), 6);
    assert_eq!(nine_eight.position_strength(4), 4);
    let waltz = BeatGrid::new(TimeSignature::three_four(), 16, 1);
    assert_eq!(waltz.position_strength(0) as f32 / 10.0, 1.0);
    assert_eq!(waltz.position_strength(8) as f32 / 10.0, 0.4);
}

#[test]
fn valid_pattern_passes() {
    let steps = steps_from("x...x.....x...x.");
    assert_eq!(validate(&steps), Ok(()));
}

#[test]
fn each_rule_reports_its_failure() {
    assert_eq!(validate(&steps_from("................")), Err(ValidationFailure::NoKick));
    assert_eq!(validate(&Vec::new()), Err(ValidationFailure::NoKick));
    assert_eq!(validate(&steps_from(".x..x...x.......")), Err(ValidationFailure::MissingDownbeat));
    assert_eq!(
        validate(&steps_from("x...............")),
        Err(ValidationFailure::DensityOutOfRange { kicks: 1, positions: 16 })
    );
    assert_eq!(
        validate(&steps_from("xx.xx.xx.x.x.x..")),
        Err(ValidationFailure::DensityOutOfRange { kicks: 9, positions: 16 })
    );
    assert_eq!(validate(&steps_from("xxx.....x.......")), Err(ValidationFailure::KickRunTooLong));
    assert_eq!(validate(&steps_from("x.x.x.x.x.x.x.x.")), Err(ValidationFailure::NoLongRest));
    assert_eq!(validate(&steps_from("x...x..........x")), Err(ValidationFailure::RestRunTooLong));
}

#[test]
fn density_bounds_are_inclusive() {
    assert_eq!(validate(&steps_from("x.......x.......")), Ok(()));
    assert_eq!(validate(&steps_from("xx..xx..xx..xx..")), Ok(()));
    assert_eq!(
        validate(&steps_from("x.......x........")),
        Err(ValidationFailure::DensityOutOfRange { kicks: 2, positions: 17 })
    );
}

#[test]
fn eight_rests_in_a_row_are_allowed() {
    assert_eq!(validate(&steps_from("x...x...x........")), Ok(()));
    assert_eq!(validate(&steps_from("x...x...x.........")), Err(ValidationFailure::RestRunTooLong));
}

#[test]
fn pattern_accessors() {
    let p = Pattern::new(steps_from("x...x.....x...x."), TimeSignature::four_four(), ComplexityLevel::Medium);
    assert_eq!(p.subdivision, 16);
    assert_eq!(p.num_measures, 1);
    assert_eq!(p.note_positions(), vec![0, 4, 10, 14]);
    assert_eq!(p.density(), (4, 16));
    assert!(p.validate_steps().is_ok());
}

#[test]
fn history_keeps_the_latest_twenty() {
    let mut session = PracticeSession::default();
    assert_eq!(session.playback_state, PlaybackState::Stopped);
    assert_eq!(session.tempo_bpm, 120);
    for i in 0..25usize {
        let mut steps = vec![false; 16];
        steps[0] = true;
        steps[i % 16] = true;
        let mut p = Pattern::new(steps, TimeSignature::four_four(), ComplexityLevel::Simple);
        p.num_measures = (i + 1) as u8;
        session.add_to_history(p);
        assert!(session.pattern_history.len() <= 20);
    }
    assert_eq!(session.pattern_history.len(), 20);
    assert_eq!(session.pattern_history[0].num_measures, 6);
    assert_eq!(session.pattern_history[19].num_measures, 25);
}

#[test]
fn defaults() {
    assert_eq!(TimeSignature::default(), TimeSignature::new(4, 4));
    assert_eq!(ComplexityLevel::default(), ComplexityLevel::Medium);
    assert_eq!(PlaybackState::default(), PlaybackState::Stopped);
    assert_eq!(TimeSignature::two_four(), TimeSignature { numerator: 2, denominator: 4 });
}
