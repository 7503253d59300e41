use kickbeats::midi::{sort_by_time, MIDI_CHANNEL};
use kickbeats::midi_error::{Platform, LINUX_HINT};
use kickbeats::scheduler::{plan_start, PlaybackSchedule, Phase, Scheduler, StartError, Step};
use kickbeats::{
    ComplexityLevel, MidiEngine, MidiError, MidiEvent, MidiEventType, Pattern, TimeSignature,
    CLICK_NOTE, KICK_NOTE,
};

fn pattern_of(text: &str) -> Pattern {
    Pattern::new(
        text.chars().map(|c| c == 'x').collect(),
        TimeSignature::four_four(),
        ComplexityLevel::Simple,
    )
}

#[test]
fn test_pattern_to_midi_events() {
    let engine = MidiEngine::new();
    let steps = vec![
        true, false, false, false, true, false, false, false, false, false, false, false, false,
        false, false, false,
    ];
    let pattern = Pattern::new(steps, TimeSignature::four_four(), ComplexityLevel::Simple);
    let events = engine.pattern_to_midi_events(&pattern, 120, true);
    assert!(events.len() >= 4);
    assert!(events.iter().any(|e| e.note == KICK_NOTE));
    assert!(events.iter().any(|e| e.note == CLICK_NOTE));
}

#[test]
fn test_pattern_duration() {
    let engine = MidiEngine::new();
    let steps = vec![false; 16];
    let pattern = Pattern::new(steps, TimeSignature::four_four(), ComplexityLevel::Simple);
    let duration = engine.pattern_duration(&pattern, 120) as f64 / 1e9;
    assert!((duration - 2.0).abs() < 0.01);
}

fn on(t: u64, note: u8, velocity: u8) -> MidiEvent {
    MidiEvent { time_offset: t, note, velocity, event_type: MidiEventType::NoteOn }
}

fn off(t: u64, note: u8) -> MidiEvent {
    MidiEvent { time_offset: t, note, velocity: 0, event_type: MidiEventType::NoteOff }
}

#[test]
fn body_events_are_exact_and_sorted() {
    let engine = MidiEngine::new();
    let pattern = pattern_of("x...x...........");
    let events = engine.pattern_to_midi_events(&pattern, 120, true);
    let ms = 1_000_000u64;
    let expected = vec![
        on(0, CLICK_NOTE, 80),
        on(0, KICK_NOTE, 100),
        off(50 * ms, CLICK_NOTE),
        off(100 * ms, KICK_NOTE),
        on(500 * ms, CLICK_NOTE, 80),
        on(500 * ms, KICK_NOTE, 100),
        off(550 * ms, CLICK_NOTE),
        off(600 * ms, KICK_NOTE),
        on(1000 * ms, CLICK_NOTE, 80),
        off(1050 * ms, CLICK_NOTE),
        on(1500 * ms, CLICK_NOTE, 80),
        off(1550 * ms, CLICK_NOTE),
    ];
    assert_eq!(events, expected);
    let without_click = engine.pattern_to_midi_events(&pattern, 120, false);
    assert_eq!(
        without_click,
        vec![on(0, KICK_NOTE, 100), off(100 * ms, KICK_NOTE), on(500 * ms, KICK_NOTE, 100), off(600 * ms, KICK_NOTE)]
    );
}

#[test]
fn fast_kicks_interleave_with_releases() {
    let engine = MidiEngine::new();
    let pattern = pattern_of("xx..............");
    let events = engine.pattern_to_midi_events(&pattern, 300, false);
    let ms = 1_000_000u64;
    assert_eq!(
        events,
        vec![on(0, KICK_NOTE, 100), on(50 * ms, KICK_NOTE, 100), off(100 * ms, KICK_NOTE), off(150 * ms, KICK_NOTE)]
    );
}

#[test]
fn sort_keeps_ties_in_order() {
    let input = vec![off(5, 1), on(3, 2, 9), on(5, 3, 9), off(3, 4), on(1, 5, 9)];
    let sorted = sort_by_time(&input);
    let notes: Vec<u8> = sorted.iter().map(|e| e.note).collect();
    assert_eq!(notes, vec![5, 2, 4, 1, 3]);
}

#[test]
fn count_in_is_four_clicks() {
    let engine = MidiEngine::new();
    let events = engine.generate_count_in_events(120);
    let ms = 1_000_000u64;
    assert_eq!(events.len(), 8);
    for beat in 0..4u64 {
        assert_eq!(events[(2 * beat) as usize], on(beat * 500 * ms, CLICK_NOTE, 80));
        assert_eq!(events[(2 * beat + 1) as usize], off(beat * 500 * ms + 50 * ms, CLICK_NOTE));
    }
    assert_eq!(engine.count_in_duration(120), 2_000_000_000);
    assert_eq!(engine.count_in_duration(90), 2_666_666_666);
}

#[test]
fn messages_are_three_bytes_on_the_percussion_channel() {
    let engine = MidiEngine::default();
    assert_eq!(engine.channel, MIDI_CHANNEL);
    assert_eq!(engine.note_on_message(KICK_NOTE, 100), [0x99, 36, 100]);
    assert_eq!(engine.note_off_message(CLICK_NOTE), [0x89, 37, 0]);
}

fn schedule_for(text: &str, tempo: u16, click: bool) -> PlaybackSchedule {
    PlaybackSchedule::build(&pattern_of(text), tempo, click)
}

/// Drives a scheduler with a clock that is always `late` nanoseconds behind
/// each requested instant, collecting the begun iterations.
fn run(scheduler: &mut Scheduler, late: u128, decisions: usize) -> (Vec<(u64, u128)>, Vec<(u128, MidiEvent)>) {
    let mut now: u128 = 0;
    let mut begun = Vec::new();
    let mut emitted = Vec::new();
    for _ in 0..decisions {
        match scheduler.decide(now, true) {
            Step::WaitUntil(t) => now = t + late,
            Step::Emit(e) => emitted.push((now, e)),
            Step::BeginIteration { iteration, ideal_start, .. } => begun.push((iteration, ideal_start)),
            Step::SkipIteration { .. } => {}
            Step::Finish => break,
        }
    }
    (begun, emitted)
}

#[test]
fn iterations_start_on_the_fixed_grid() {
    let mut on_time = Scheduler::new(schedule_for("x...x.....x...x.", 120, true));
    let mut drifting = Scheduler::new(schedule_for("x...x.....x...x.", 120, true));
    let (begun, _) = run(&mut on_time, 0, 500);
    let (begun_late, _) = run(&mut drifting, 600_000_000, 500);
    assert!(begun.len() >= 5);
    for (n, start) in begun.iter().chain(begun_late.iter()) {
        assert_eq!(*start, 2_000_000_000 + (*n as u128) * 2_000_000_000);
    }
    assert_eq!(&begun[..5], &begun_late[..5]);
    assert_eq!(on_time.state.max_drift, 0);
    assert!(drifting.state.max_drift >= 100_000_000);
}

#[test]
fn late_iteration_is_skipped_whole() {
    let mut s = Scheduler::new(schedule_for("x...x...........", 120, false));
    // Finish the count-in on time.
    let mut now: u128 = 0;
    loop {
        match s.decide(now, true) {
            Step::WaitUntil(t) => now = t,
            Step::Emit(_) => {}
            Step::BeginIteration { iteration, .. } => {
                assert_eq!(iteration, 0);
                break;
            }
            other => panic!("unexpected {:?}", other),
        }
    }
    // Play iteration 0, then wake up far too late for iteration 1.
    loop {
        match s.decide(now, true) {
            Step::WaitUntil(t) => now = t,
            Step::Emit(_) => {}
            Step::BeginIteration { .. } => panic!("iteration 1 should be skipped"),
            Step::SkipIteration { iteration, drift, warn } => {
                assert_eq!(iteration, 1);
                assert!(warn);
                assert_eq!(drift, now - 4_000_000_000);
                break;
            }
            Step::Finish => panic!("finished early"),
        }
        if s.state.next_event == 4 {
            now = 6_500_000_000;
        }
    }
    match s.decide(now, true) {
        Step::BeginIteration { iteration, ideal_start, .. } => {
            assert_eq!(iteration, 2);
            assert_eq!(ideal_start, 6_000_000_000);
        }
        other => panic!("unexpected {:?}", other),
    }
}

#[test]
fn stop_ends_emission_for_good() {
    let mut s = Scheduler::new(schedule_for("x...x.....x...x.", 120, true));
    let (_, emitted) = run(&mut s, 0, 30);
    assert!(!emitted.is_empty());
    assert_eq!(s.decide(1_000, false), Step::Finish);
    assert!(s.is_stopped());
    assert_eq!(s.state.phase, Phase::Stopped);
    for t in [0u128, 5_000_000_000, 99_000_000_000] {
        assert_eq!(s.decide(t, true), Step::Finish);
    }
}

#[test]
fn count_in_waits_for_each_click() {
    let mut s = Scheduler::new(schedule_for("x...x.....x...x.", 120, true));
    assert_eq!(s.decide(0, true), Step::Emit(on(0, CLICK_NOTE, 80)));
    assert_eq!(s.decide(10, true), Step::WaitUntil(50_000_000));
    assert_eq!(s.decide(60_000_000, true), Step::Emit(off(50_000_000, CLICK_NOTE)));
}

#[test]
fn start_guard() {
    assert_eq!(plan_start(true, 3), Err(StartError::AlreadyRunning));
    assert_eq!(plan_start(false, 0), Err(StartError::DeviceUnavailable));
    assert_eq!(plan_start(false, 1), Ok(()));
}

#[test]
fn midi_error_hints() {
    let e = MidiError::new("No MIDI output ports found: no ports".to_string(), Platform::Linux);
    assert_eq!(e.platform_hint.as_deref(), Some(LINUX_HINT));
    let e = MidiError::new("MIDI port 'x' not found".to_string(), Platform::MacOs);
    assert!(e.platform_hint.unwrap().starts_with("macOS MIDI Setup:"));
    let e = MidiError::new("port not found".to_string(), Platform::Other);
    assert_eq!(e.platform_hint, None);
    let e = MidiError::new("connection refused".to_string(), Platform::Windows);
    assert_eq!(e.platform_hint, None);
    assert_eq!(e.message, "connection refused");
}
