use std::collections::VecDeque;

use kickbeats::pattern::hamming_steps;
use kickbeats::{is_pattern_unique, ComplexityLevel, Pattern, TimeSignature};

fn simple(steps: Vec<bool>) -> Pattern {
    Pattern::new(steps, TimeSignature::four_four(), ComplexityLevel::Simple)
}

#[test]
fn test_is_pattern_unique_empty_history() {
    let pattern = simple(vec![
        true, false, false, false, true, false, false, false, true, false, false, false, true,
        false, false, false,
    ]);
    let history = VecDeque::new();
    assert!(is_pattern_unique(&pattern, &history, 3));
}

#[test]
fn test_is_pattern_unique_sufficient_distance() {
    let pattern1 = simple(vec![
        true, false, false, false, true, false, false, false, false, false, false, false, false,
        false, false, false,
    ]);
    let pattern2 = simple(vec![
        true, false, false, false, false, false, false, false, true, false, false, false, true,
        false, false, false,
    ]);
    let mut history = VecDeque::new();
    history.push_back(pattern1);
    assert!(is_pattern_unique(&pattern2, &history, 3));
}

#[test]
fn test_is_pattern_unique_insufficient_distance() {
    let pattern1 = simple(vec![
        true, false, false, false, true, false, false, false, false, false, false, false, false,
        false, false, false,
    ]);
    let pattern2 = simple(vec![
        true, false, false, false, true, false, false, false, true, false, false, false, false,
        false, false, false,
    ]);
    let mut history = VecDeque::new();
    history.push_back(pattern1);
    assert!(!is_pattern_unique(&pattern2, &history, 3));
}

#[test]
fn test_is_pattern_unique_multiple_history() {
    let pattern1 = simple(vec![
        true, false, false, false, true, false, false, false, false, false, false, false, false,
        false, false, false,
    ]);
    let pattern2 = simple(vec![
        true, false, false, false, false, false, false, false, true, false, false, false, true,
        false, false, false,
    ]);
    let pattern3 = Pattern::new(
        vec![
            true, false, false, false, false, false, true, false, false, false, false, false,
            false, false, true, false,
        ],
        TimeSignature::four_four(),
        ComplexityLevel::Medium,
    );
    let mut history = VecDeque::new();
    history.push_back(pattern1);
    history.push_back(pattern2);
    assert!(is_pattern_unique(&pattern3, &history, 3));
}

#[test]
fn hamming_example_is_three() {
    let a = simple(vec![
        true, false, false, false, true, false, false, false, false, false, false, false, false,
        false, false, false,
    ]);
    let b = simple(vec![
        true, false, false, false, false, false, false, false, true, false, false, false, true,
        false, false, false,
    ]);
    assert_eq!(a.hamming_distance(&b), 3);
}

#[test]
fn hamming_laws_on_examples() {
    let a = vec![true, false, true, true, false, false];
    let b = vec![false, false, true, false, true, false];
    assert_eq!(hamming_steps(&a, &a), 0);
    assert_eq!(hamming_steps(&a, &b), hamming_steps(&b, &a));
    assert_eq!(hamming_steps(&a, &b), 3);
    let all_on = vec![true; 6];
    let all_off = vec![false; 6];
    assert_eq!(hamming_steps(&all_on, &all_off), 6);
    let short = vec![false, false];
    assert_eq!(hamming_steps(&all_on, &short), 2);
}

#[test]
fn uniqueness_threshold_is_inclusive() {
    let a = simple(vec![
        true, false, false, false, true, false, false, false, false, false, false, false, false,
        false, false, false,
    ]);
    let b = simple(vec![
        true, false, false, false, false, false, false, false, true, false, false, false, true,
        false, false, false,
    ]);
    let mut history = VecDeque::new();
    history.push_back(a);
    assert!(is_pattern_unique(&b, &history, 3));
    assert!(!is_pattern_unique(&b, &history, 4));
    assert!(is_pattern_unique(&b, &history, 0));
}
