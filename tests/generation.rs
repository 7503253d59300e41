use std::collections::VecDeque;

use kickbeats::generator::{
    fill_candidate, first_acceptable, tier_for_attempt, GenerateError, ATTEMPTS_PER_TIER,
    ESCALATION_ATTEMPTS,
};
use kickbeats::BeatGrid;
use kickbeats::pattern::validate;
use kickbeats::{is_pattern_unique, ComplexityLevel, Pattern, TimeSignature, WeightedGenerator};

#[test]
fn test_base_weights_4_4() {
    let weights = WeightedGenerator::base_weights_4_4();
    assert_eq!(weights.len(), 16);
    assert_eq!(weights[0] as f32 / 10.0, 1.0);
    assert_eq!(weights[8] as f32 / 10.0, 0.7);
}

#[test]
fn test_generate_simple_pattern() {
    let mut gen = WeightedGenerator::new();
    let result = gen.generate(TimeSignature::four_four(), ComplexityLevel::Simple, &VecDeque::new());
    assert!(result.is_ok());
    let pattern = result.unwrap();
    assert!(pattern.steps[0]);
    assert!(pattern.validate_steps().is_ok());
}

fn check_accepted(pattern: &Pattern) {
    assert_eq!(pattern.steps.len(), 16);
    assert!(pattern.steps[0]);
    let (kicks, positions) = pattern.density();
    assert!(kicks * 8 >= positions && kicks * 2 <= positions);
    assert!(pattern.steps.windows(3).all(|w| !(w[0] && w[1] && w[2])));
    assert!(pattern.steps.windows(2).any(|w| !w[0] && !w[1]));
    assert!(pattern.steps.windows(9).all(|w| w.iter().any(|&s| s)));
    assert!(validate(&pattern.steps).is_ok());
}

#[test]
fn generated_patterns_satisfy_every_rule() {
    let mut gen = WeightedGenerator::default();
    for complexity in [ComplexityLevel::Simple, ComplexityLevel::Medium, ComplexityLevel::Complex] {
        for _ in 0..20 {
            let (p, tier) = gen
                .generate_unique(TimeSignature::four_four(), complexity, &VecDeque::new())
                .unwrap();
            check_accepted(&p);
            assert_eq!(p.complexity_level, complexity);
            assert!(tier >= 1 && tier <= 3);
        }
    }
}

#[test]
fn empty_history_is_met_at_the_strictest_tier() {
    let mut gen = WeightedGenerator::new();
    let (_, tier) = gen
        .generate_unique(TimeSignature::four_four(), ComplexityLevel::Medium, &VecDeque::new())
        .unwrap();
    assert_eq!(tier, 3);
}

#[test]
fn generated_pattern_keeps_away_from_history() {
    let mut gen = WeightedGenerator::new();
    let mut history = VecDeque::new();
    for _ in 0..10 {
        let (p, tier) = gen
            .generate_unique(TimeSignature::four_four(), ComplexityLevel::Complex, &history)
            .unwrap();
        assert!(is_pattern_unique(&p, &history, tier));
        history.push_back(p);
    }
}

#[test]
fn only_common_time_is_generated() {
    let mut gen = WeightedGenerator::new();
    assert_eq!(
        gen.generate(TimeSignature::three_four(), ComplexityLevel::Simple, &VecDeque::new()).err(),
        Some(GenerateError::UnsupportedSignature)
    );
    assert_eq!(
        gen.generate_unique(TimeSignature::six_eight(), ComplexityLevel::Simple, &VecDeque::new()).err(),
        Some(GenerateError::UnsupportedSignature)
    );
}

#[test]
fn tiers_relax_every_thousand_attempts() {
    assert_eq!(tier_for_attempt(0), Some(3));
    assert_eq!(tier_for_attempt(ATTEMPTS_PER_TIER - 1), Some(3));
    assert_eq!(tier_for_attempt(ATTEMPTS_PER_TIER), Some(2));
    assert_eq!(tier_for_attempt(2 * ATTEMPTS_PER_TIER), Some(1));
    assert_eq!(tier_for_attempt(ESCALATION_ATTEMPTS - 1), Some(1));
    assert_eq!(tier_for_attempt(ESCALATION_ATTEMPTS), None);
}

fn steps_from(text: &str) -> Vec<bool> {
    text.chars().map(|c| c == 'x').collect()
}

#[test]
fn tier_one_candidate_is_not_missed() {
    let known = steps_from("x...x.....x...x.");
    let near = steps_from("x...x.....x...xx");
    let mut history = VecDeque::new();
    history.push_back(Pattern::new(known.clone(), TimeSignature::four_four(), ComplexityLevel::Medium));
    let mut candidates = vec![known.clone(); 2 * ATTEMPTS_PER_TIER + 5];
    candidates.push(near.clone());
    candidates.push(near);
    assert_eq!(first_acceptable(&candidates, &history), Some((2 * ATTEMPTS_PER_TIER + 5, 1)));
}

#[test]
fn first_acceptable_prefers_the_earliest_candidate() {
    let history = VecDeque::new();
    let invalid = steps_from("................");
    let valid = steps_from("x...x.....x...x.");
    let candidates = vec![invalid.clone(), invalid.clone(), valid.clone(), valid];
    assert_eq!(first_acceptable(&candidates, &history), Some((2, 3)));
    assert_eq!(first_acceptable(&vec![invalid; 3], &history), None);
}

#[test]
fn candidates_beyond_the_budget_are_ignored() {
    let history = VecDeque::new();
    let invalid = steps_from("................");
    let valid = steps_from("x...x.....x...x.");
    let mut candidates = vec![invalid; ESCALATION_ATTEMPTS];
    candidates.push(valid);
    assert_eq!(first_acceptable(&candidates, &history), None);
}

#[test]
fn base_weights_are_position_strengths() {
    let weights = WeightedGenerator::base_weights_4_4();
    let grid = BeatGrid::new(TimeSignature::four_four(), 16, 1);
    for i in 0..16 {
        assert_eq!(weights[i], grid.position_strength(i) as u32);
    }
    assert_eq!(weights, vec![10, 2, 2, 2, 4, 2, 2, 2, 7, 2, 2, 2, 4, 2, 2, 2]);
}

fn kicks_at(steps: &[bool]) -> Vec<usize> {
    steps.iter().enumerate().filter(|(_, &k)| k).map(|(i, _)| i).collect()
}

#[test]
fn fill_stops_at_the_target() {
    // Range 2..=4: a target draw of 0 aims at 2 kicks, 2 at 4, 4 at 3.
    let draws = vec![5, 5, 9, 3, 12, 7];
    assert_eq!(kicks_at(&fill_candidate(2, 4, 0, &draws)), vec![0, 5]);
    assert_eq!(kicks_at(&fill_candidate(2, 4, 2, &draws)), vec![0, 3, 5, 9]);
    assert_eq!(kicks_at(&fill_candidate(2, 4, 4, &draws)), vec![0, 5, 9]);
    assert_eq!(fill_candidate(2, 4, 0, &draws).len(), 16);
}

#[test]
fn fill_uses_at_most_a_hundred_draws() {
    let mut draws = vec![0usize; 100];
    draws.push(7);
    assert_eq!(kicks_at(&fill_candidate(2, 4, 0, &draws)), vec![0]);
    draws[99] = 7;
    assert_eq!(kicks_at(&fill_candidate(2, 4, 0, &draws)), vec![0, 7]);
    assert_eq!(kicks_at(&fill_candidate(6, 8, 0, &vec![])), vec![0]);
}

#[test]
fn generated_kick_count_stays_within_range() {
    let mut gen = WeightedGenerator::new();
    for (complexity, max) in [
        (ComplexityLevel::Simple, 4),
        (ComplexityLevel::Medium, 6),
        (ComplexityLevel::Complex, 8),
    ] {
        for _ in 0..10 {
            let (p, _) = gen
                .generate_unique(TimeSignature::four_four(), complexity, &VecDeque::new())
                .unwrap();
            let (kicks, _) = p.density();
            assert!(kicks >= 1 && kicks <= max);
        }
    }
}
