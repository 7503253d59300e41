use vstd::prelude::*;

use crate::beat_grid::{position_offset_of, total_positions_of};
use crate::midi::{
    body_events_unsorted, count_in_upto, is_stable_sort_of, MidiEngine, MidiEvent, COUNT_IN_BEATS,
    MAX_PATTERN_STEPS,
};
use crate::pattern::Pattern;

verus! {

/// Drift above this many nanoseconds (10 ms) is reported.
pub const DRIFT_WARNING_NANOS: u128 = 10_000_000;

/// The two fixed event timelines of a playback and their lengths, all in
/// nanoseconds.
pub struct PlaybackSchedule {
    /// Count-in events, offsets from the reference instant.
    pub count_in: Vec<MidiEvent>,
    /// Pattern body events, offsets from the start of an iteration.
    pub body: Vec<MidiEvent>,
    /// Length of the count-in.
    pub count_in_duration: u64,
    /// Length of one iteration of the body.
    pub pattern_duration: u64,
}

/// Where the scheduler stands.
#[derive(Debug, Clone, Copy, PartialEq, Eq, Structural)]
pub enum Phase {
    /// Playing the count-in.
    CountIn,
    /// Looping the pattern body.
    Looping,
    /// Done; nothing more is emitted.
    Stopped,
}

/// The scheduler's position in the timeline.
#[derive(Debug, Clone, Copy, PartialEq, Eq, Structural)]
pub struct SchedulerState {
    /// Current phase.
    pub phase: Phase,
    /// Index of the next event of the current phase (of the current
    /// iteration while looping).
    pub next_event: usize,
    /// Loop counter: the iteration being played or about to begin.
    pub iteration: u64,
    /// Whether iteration `iteration` has begun.
    pub in_iteration: bool,
    /// Largest drift observed so far, in nanoseconds.
    pub max_drift: u128,
}

/// What the scheduling context is to do next.
#[derive(Debug, Clone, Copy, PartialEq, Eq, Structural)]
pub enum Step {
    /// Suspend until this instant (nanoseconds after the reference
    /// instant), then decide again.
    WaitUntil(u128),
    /// Send this event now, then decide again.
    Emit(MidiEvent),
    /// Iteration `iteration` begins at its ideal start; `drift` is how late
    /// it was observed, and `warn` says the drift is worth reporting.
    BeginIteration { iteration: u64, ideal_start: u128, drift: u128, warn: bool },
    /// Iteration `iteration` could no longer be played in time and is
    /// skipped whole.
    SkipIteration { iteration: u64, drift: u128, warn: bool },
    /// Release the kick and the click; the scheduling context ends.
    Finish,
}

/// Ideal start of iteration `n`, in nanoseconds after the reference
/// instant: fixed by the schedule, never by what was observed.
pub open spec fn ideal_start_of(count_in_duration: int, pattern_duration: int, n: int) -> int {
    count_in_duration + n * pattern_duration
}

/// How late `now` is against `start` (zero when early).
pub open spec fn drift_of(now: int, start: int) -> int {
    if now > start {
        now - start
    } else {
        0
    }
}

/// The decision at the top of iteration `n`.
pub open spec fn top_of_iteration(
    count_in_duration: int,
    pattern_duration: int,
    st: SchedulerState,
    n: int,
    now: int,
) -> (SchedulerState, Step) {
    let start = ideal_start_of(count_in_duration, pattern_duration, n);
    let drift = drift_of(now, start);
    let max_drift = if drift > st.max_drift { drift as u128 } else { st.max_drift };
    let warn = drift > DRIFT_WARNING_NANOS;
    if n > u64::MAX {
        (SchedulerState { phase: Phase::Stopped, ..st }, Step::Finish)
    } else if now > start + pattern_duration {
        if n == u64::MAX {
            (SchedulerState { phase: Phase::Stopped, max_drift, ..st }, Step::Finish)
        } else {
            (
                SchedulerState {
                    phase: Phase::Looping,
                    next_event: 0,
                    iteration: (n + 1) as u64,
                    in_iteration: false,
                    max_drift,
                },
                Step::SkipIteration { iteration: n as u64, drift: drift as u128, warn },
            )
        }
    } else {
        (
            SchedulerState {
                phase: Phase::Looping,
                next_event: 0,
                iteration: n as u64,
                in_iteration: true,
                max_drift,
            },
            Step::BeginIteration {
                iteration: n as u64,
                ideal_start: start as u128,
                drift: drift as u128,
                warn,
            },
        )
    }
}

/// The decision while looping.
pub open spec fn loop_step(
    body: Seq<MidiEvent>,
    count_in_duration: int,
    pattern_duration: int,
    st: SchedulerState,
    now: int,
) -> (SchedulerState, Step) {
    if st.in_iteration && st.next_event < body.len() {
        let e = body[st.next_event as int];
        let target = ideal_start_of(count_in_duration, pattern_duration, st.iteration as int)
            + e.time_offset;
        if now < target {
            (st, Step::WaitUntil(target as u128))
        } else {
            (SchedulerState { next_event: (st.next_event + 1) as usize, ..st }, Step::Emit(e))
        }
    } else {
        let n = if st.in_iteration {
            st.iteration + 1
        } else {
            st.iteration as int
        };
        top_of_iteration(count_in_duration, pattern_duration, st, n, now)
    }
}

/// The scheduler's decision at instant `now` (nanoseconds after the
/// reference instant), given whether playback is still wanted.
pub open spec fn step_of(
    count_in: Seq<MidiEvent>,
    body: Seq<MidiEvent>,
    count_in_duration: int,
    pattern_duration: int,
    st: SchedulerState,
    now: int,
    running: bool,
) -> (SchedulerState, Step) {
    if st.phase == Phase::Stopped {
        (st, Step::Finish)
    } else if !running {
        (SchedulerState { phase: Phase::Stopped, ..st }, Step::Finish)
    } else if st.phase == Phase::CountIn && st.next_event < count_in.len() {
        let e = count_in[st.next_event as int];
        if now < e.time_offset {
            (st, Step::WaitUntil(e.time_offset as u128))
        } else {
            (SchedulerState { next_event: (st.next_event + 1) as usize, ..st }, Step::Emit(e))
        }
    } else if st.phase == Phase::CountIn {
        let entering = SchedulerState {
            phase: Phase::Looping,
            next_event: 0,
            iteration: 0,
            in_iteration: false,
            ..st
        };
        loop_step(body, count_in_duration, pattern_duration, entering, now)
    } else {
        loop_step(body, count_in_duration, pattern_duration, st, now)
    }
}

/// Decides, step by step, when each event of a playback is sent.
pub struct Scheduler {
    /// The timelines being played.
    pub schedule: PlaybackSchedule,
    /// Position in them.
    pub state: SchedulerState,
}

impl Scheduler {
    /// The decision this scheduler makes at `now` with the given flag.
    pub open spec fn next(&self, now: int, running: bool) -> (SchedulerState, Step) {
        step_of(
            self.schedule.count_in@,
            self.schedule.body@,
            self.schedule.count_in_duration as int,
            self.schedule.pattern_duration as int,
            self.state,
            now,
            running,
        )
    }

    /// A scheduler at the start of the count-in.
    pub fn new(schedule: PlaybackSchedule) -> (r: Self)
        ensures
            r.schedule == schedule,
            r.state == (SchedulerState {
                phase: Phase::CountIn,
                next_event: 0,
                iteration: 0,
                in_iteration: false,
                max_drift: 0,
            }),
    {
        Scheduler {
            schedule,
            state: SchedulerState {
                phase: Phase::CountIn,
                next_event: 0,
                iteration: 0,
                in_iteration: false,
                max_drift: 0,
            },
        }
    }

    /// Whether the scheduling context has ended.
    pub fn is_stopped(&self) -> (r: bool)
        ensures
            r == (self.state.phase == Phase::Stopped),
    {
        self.state.phase == Phase::Stopped
    }

    fn top_of_iteration(&mut self, n: u64, wrapped: bool, now: u128) -> (r: Step)
        requires
            old(self).state.phase != Phase::Stopped,
        ensures
            final(self).schedule == old(self).schedule,
            (final(self).state, r) == top_of_iteration(
                old(self).schedule.count_in_duration as int,
                old(self).schedule.pattern_duration as int,
                old(self).state,
                if wrapped { u64::MAX + 1 } else { n as int },
                now as int,
            ),
    {
        if wrapped {
            self.state.phase = Phase::Stopped;
            return Step::Finish;
        }
        let cd = self.schedule.count_in_duration as u128;
        let pd = self.schedule.pattern_duration as u128;
        assert((n as u128) * pd <= (u64::MAX as u128) * (u64::MAX as u128)) by (nonlinear_arith)
            requires
                n <= u64::MAX,
                pd <= u64::MAX,
        ;
        let start: u128 = cd + (n as u128) * pd;
        let drift: u128 = if now > start {
            now - start
        } else {
            0
        };
        if drift > self.state.max_drift {
            self.state.max_drift = drift;
        }
        let warn = drift > DRIFT_WARNING_NANOS;
        if now > start + pd {
            if n == u64::MAX {
                self.state.phase = Phase::Stopped;
                return Step::Finish;
            }
            self.state.phase = Phase::Looping;
            self.state.next_event = 0;
            self.state.iteration = n + 1;
            self.state.in_iteration = false;
            Step::SkipIteration { iteration: n, drift, warn }
        } else {
            self.state.phase = Phase::Looping;
            self.state.next_event = 0;
            self.state.iteration = n;
            self.state.in_iteration = true;
            Step::BeginIteration { iteration: n, ideal_start: start, drift, warn }
        }
    }

    fn loop_step(&mut self, now: u128) -> (r: Step)
        requires
            old(self).state.phase == Phase::Looping,
        ensures
            final(self).schedule == old(self).schedule,
            (final(self).state, r) == loop_step(
                old(self).schedule.body@,
                old(self).schedule.count_in_duration as int,
                old(self).schedule.pattern_duration as int,
                old(self).state,
                now as int,
            ),
    {
        if self.state.in_iteration && self.state.next_event < self.schedule.body.len() {
            let e = self.schedule.body[self.state.next_event];
            let cd = self.schedule.count_in_duration as u128;
            let pd = self.schedule.pattern_duration as u128;
            let n = self.state.iteration as u128;
            assert(n * pd <= (u64::MAX as u128) * (u64::MAX as u128)) by (nonlinear_arith)
                requires
                    n <= u64::MAX,
                    pd <= u64::MAX,
            ;
            let target: u128 = cd + n * pd + e.time_offset as u128;
            if now < target {
                Step::WaitUntil(target)
            } else {
                self.state.next_event = self.state.next_event + 1;
                Step::Emit(e)
            }
        } else if self.state.in_iteration {
            if self.state.iteration == u64::MAX {
                self.top_of_iteration(0, true, now)
            } else {
                let n = self.state.iteration + 1;
                self.top_of_iteration(n, false, now)
            }
        } else {
            let n = self.state.iteration;
            self.top_of_iteration(n, false, now)
        }
    }

    /// Decides what to do at `now` (nanoseconds after the reference
    /// instant); `running` is the playback flag read just before.
    pub fn decide(&mut self, now: u128, running: bool) -> (r: Step)
        ensures
            final(self).schedule == old(self).schedule,
            (final(self).state, r) == old(self).next(now as int, running),
    {
        if self.state.phase == Phase::Stopped {
            return Step::Finish;
        }
        if !running {
            self.state.phase = Phase::Stopped;
            return Step::Finish;
        }
        if self.state.phase == Phase::CountIn {
            if self.state.next_event < self.schedule.count_in.len() {
                let e = self.schedule.count_in[self.state.next_event];
                if now < e.time_offset as u128 {
                    return Step::WaitUntil(e.time_offset as u128);
                }
                self.state.next_event = self.state.next_event + 1;
                return Step::Emit(e);
            }
            self.state.phase = Phase::Looping;
            self.state.next_event = 0;
            self.state.iteration = 0;
            self.state.in_iteration = false;
        }
        self.loop_step(now)
    }
}

/// Why a playback could not start.
#[derive(Debug, Clone, Copy, PartialEq, Eq, Structural)]
pub enum StartError {
    /// A playback is already running.
    AlreadyRunning,
    /// No output destination was found.
    DeviceUnavailable,
}

/// The start guard: a playback starts only when none is running and some
/// output destination exists.
pub fn plan_start(already_running: bool, destinations: usize) -> (r: Result<(), StartError>)
    ensures
        already_running ==> r == Err::<(), StartError>(StartError::AlreadyRunning),
        !already_running && destinations == 0 ==> r == Err::<(), StartError>(
            StartError::DeviceUnavailable,
        ),
        !already_running && destinations > 0 ==> r is Ok,
{
    if already_running {
        Err(StartError::AlreadyRunning)
    } else if destinations == 0 {
        Err(StartError::DeviceUnavailable)
    } else {
        Ok(())
    }
}

impl PlaybackSchedule {
    /// The timelines of playing `pattern` at `tempo_bpm`: the count-in, the
    /// sorted body (with a click on each beat when asked for), and their
    /// lengths.
    pub fn build(pattern: &Pattern, tempo_bpm: u16, include_click: bool) -> (r: Self)
        requires
            tempo_bpm > 0,
            pattern.subdivision > 0,
            pattern.time_signature.denominator > 0,
            pattern.steps@.len() <= MAX_PATTERN_STEPS,
        ensures
            r.count_in@ == count_in_upto(tempo_bpm as int, COUNT_IN_BEATS as int),
            is_stable_sort_of(r.body@, body_events_unsorted(*pattern, tempo_bpm as int, include_click)),
            r.count_in_duration as int == COUNT_IN_BEATS * 60_000_000_000 / (tempo_bpm as int),
            r.pattern_duration as int == position_offset_of(
                total_positions_of(pattern.time_signature, pattern.subdivision, pattern.num_measures),
                tempo_bpm as int,
                pattern.subdivision as int,
            ),
    {
        let engine = MidiEngine::new();
        PlaybackSchedule {
            count_in: engine.generate_count_in_events(tempo_bpm),
            body: engine.pattern_to_midi_events(pattern, tempo_bpm, include_click),
            count_in_duration: engine.count_in_duration(tempo_bpm),
            pattern_duration: engine.pattern_duration(pattern, tempo_bpm),
        }
    }
}

/// Drift measurement never steers playback: schedulers that differ only in
/// the largest drift seen make the same decision and end in states that
/// differ at most there.
pub proof fn lemma_drift_does_not_steer(
    count_in: Seq<MidiEvent>,
    body: Seq<MidiEvent>,
    count_in_duration: int,
    pattern_duration: int,
    st: SchedulerState,
    other_max_drift: u128,
    now: int,
    running: bool,
)
    ensures
        ({
            let a = step_of(count_in, body, count_in_duration, pattern_duration, st, now, running);
            let b = step_of(
                count_in,
                body,
                count_in_duration,
                pattern_duration,
                SchedulerState { max_drift: other_max_drift, ..st },
                now,
                running,
            );
            &&& a.1 == b.1
            &&& a.0.phase == b.0.phase
            &&& a.0.next_event == b.0.next_event
            &&& a.0.iteration == b.0.iteration
            &&& a.0.in_iteration == b.0.in_iteration
        }),
{
}

/// Iteration `n` begins at the count-in length plus `n` pattern lengths,
/// whatever was observed before; while it plays, each event is awaited
/// until that start plus the event's offset; and iterations are begun or
/// skipped one after the other.
pub proof fn lemma_iteration_timing(
    count_in: Seq<MidiEvent>,
    body: Seq<MidiEvent>,
    count_in_duration: u64,
    pattern_duration: u64,
    st: SchedulerState,
    now: int,
    running: bool,
)
    ensures
        ({
            let (next, step) = step_of(
                count_in,
                body,
                count_in_duration as int,
                pattern_duration as int,
                st,
                now,
                running,
            );
            &&& step matches Step::BeginIteration { iteration, ideal_start, .. } ==> ideal_start
                == count_in_duration + iteration * pattern_duration && next.iteration == iteration
            &&& (st.phase == Phase::Looping && st.in_iteration && st.next_event < body.len()
                && running) ==> step == Step::WaitUntil(
                (count_in_duration + st.iteration * pattern_duration + body[st.next_event as int].time_offset) as u128,
            ) || step == Step::Emit(body[st.next_event as int])
            &&& (st.phase == Phase::Looping && running) ==> (step matches Step::BeginIteration {
                iteration,
                ..
            } ==> iteration == st.iteration + if st.in_iteration { 1int } else { 0int })
            &&& (st.phase == Phase::Looping && running) ==> (step matches Step::SkipIteration {
                iteration,
                ..
            } ==> iteration == st.iteration + if st.in_iteration { 1int } else { 0int })
        }),
{
    let n_max = u64::MAX as int;
    assert(0 <= st.iteration * pattern_duration <= n_max * n_max) by (nonlinear_arith)
        requires
            0 <= st.iteration <= n_max,
            0 <= pattern_duration <= n_max,
    ;
    let (next, step) = step_of(
        count_in,
        body,
        count_in_duration as int,
        pattern_duration as int,
        st,
        now,
        running,
    );
    if let Step::BeginIteration { iteration, .. } = step {
        assert(0 <= iteration * pattern_duration <= n_max * n_max) by (nonlinear_arith)
            requires
                0 <= iteration <= n_max,
                0 <= pattern_duration <= n_max,
        ;
    }
}

/// Once playback is no longer wanted the scheduler finishes; a finished
/// scheduler stays finished and emits nothing more, whatever it is told.
pub proof fn lemma_stop_is_final(
    count_in: Seq<MidiEvent>,
    body: Seq<MidiEvent>,
    count_in_duration: int,
    pattern_duration: int,
    st: SchedulerState,
    now: int,
    later: int,
    running_later: bool,
)
    ensures
        ({
            let (next, step) = step_of(
                count_in,
                body,
                count_in_duration,
                pattern_duration,
                st,
                now,
                false,
            );
            &&& step == Step::Finish
            &&& next.phase == Phase::Stopped
            &&& step_of(count_in, body, count_in_duration, pattern_duration, next, later, running_later)
                == (next, Step::Finish)
        }),
{
}

/// The steps a scheduler takes from `st` when it is asked at the instants
/// and with the flags of `obs`, one decision per observation.
pub open spec fn run_of(
    count_in: Seq<MidiEvent>,
    body: Seq<MidiEvent>,
    count_in_duration: int,
    pattern_duration: int,
    st: SchedulerState,
    obs: Seq<(int, bool)>,
) -> Seq<Step>
    decreases obs.len(),
{
    if obs.len() == 0 {
        Seq::empty()
    } else {
        let (next, step) = step_of(
            count_in,
            body,
            count_in_duration,
            pattern_duration,
            st,
            obs[0].0,
            obs[0].1,
        );
        seq![step] + run_of(
            count_in,
            body,
            count_in_duration,
            pattern_duration,
            next,
            obs.drop_first(),
        )
    }
}

/// A step that begins or skips an iteration.
pub open spec fn is_iteration_step(step: Step) -> bool {
    step is BeginIteration || step is SkipIteration
}

/// The iteration a step begins or skips.
pub open spec fn iteration_of_step(step: Step) -> int {
    match step {
        Step::BeginIteration { iteration, .. } => iteration as int,
        Step::SkipIteration { iteration, .. } => iteration as int,
        _ => -1,
    }
}

/// The steps of `steps` that begin or skip an iteration, in order.
pub open spec fn iteration_steps(steps: Seq<Step>) -> Seq<Step>
    decreases steps.len(),
{
    if steps.len() == 0 {
        Seq::empty()
    } else {
        (if is_iteration_step(steps[0]) {
            seq![steps[0]]
        } else {
            Seq::empty()
        }) + iteration_steps(steps.drop_first())
    }
}

/// The number of the next iteration to begin or skip.
pub open spec fn upcoming_iteration(st: SchedulerState) -> int {
    if st.phase == Phase::CountIn {
        0
    } else if st.in_iteration {
        st.iteration + 1
    } else {
        st.iteration as int
    }
}

/// The state a playback starts in.
pub open spec fn initial_state() -> SchedulerState {
    SchedulerState {
        phase: Phase::CountIn,
        next_event: 0,
        iteration: 0,
        in_iteration: false,
        max_drift: 0,
    }
}

proof fn lemma_iteration_steps_from(
    count_in: Seq<MidiEvent>,
    body: Seq<MidiEvent>,
    count_in_duration: u64,
    pattern_duration: u64,
    st: SchedulerState,
    obs: Seq<(int, bool)>,
)
    requires
        st.phase != Phase::Stopped ==> upcoming_iteration(st) <= u64::MAX + 1,
    ensures
        ({
            let tops = iteration_steps(
                run_of(
                    count_in,
                    body,
                    count_in_duration as int,
                    pattern_duration as int,
                    st,
                    obs,
                ),
            );
            &&& st.phase == Phase::Stopped ==> tops.len() == 0
            &&& forall|k: int|
                0 <= k < tops.len() ==> iteration_of_step(#[trigger] tops[k]) == upcoming_iteration(st)
                    + k
            &&& forall|k: int|
                0 <= k < tops.len() ==> (#[trigger] tops[k] matches Step::BeginIteration {
                    iteration,
                    ideal_start,
                    ..
                } ==> ideal_start == count_in_duration + iteration * pattern_duration)
        }),
    decreases obs.len(),
{
    let cd = count_in_duration as int;
    let pd = pattern_duration as int;
    if obs.len() > 0 {
        let (next, step) = step_of(count_in, body, cd, pd, st, obs[0].0, obs[0].1);
        lemma_iteration_timing(count_in, body, count_in_duration, pattern_duration, st, obs[0].0, obs[0].1);
        assert(next.phase != Phase::Stopped ==> upcoming_iteration(next) <= u64::MAX + 1);
        assert(is_iteration_step(step) ==> iteration_of_step(step) == upcoming_iteration(st)
            && (next.phase != Phase::Stopped ==> upcoming_iteration(next) == upcoming_iteration(st) + 1));
        assert(!is_iteration_step(step) ==> next.phase == Phase::Stopped || upcoming_iteration(next)
            == upcoming_iteration(st));
        lemma_iteration_steps_from(count_in, body, count_in_duration, pattern_duration, next, obs.drop_first());
        let rest = run_of(count_in, body, cd, pd, next, obs.drop_first());
        let all = run_of(count_in, body, cd, pd, st, obs);
        assert(all == seq![step] + rest);
        assert(all.drop_first() =~= rest);
        if st.phase == Phase::Stopped {
            assert(step == Step::Finish);
        }
    }
}

/// Over any sequence of observations from the start of a playback, the
/// `k`-th iteration begun or skipped is iteration `k`, and a begun one
/// starts at the count-in length plus `k` pattern lengths, however late the
/// earlier iterations ran.
pub proof fn lemma_iterations_follow_the_grid(
    count_in: Seq<MidiEvent>,
    body: Seq<MidiEvent>,
    count_in_duration: u64,
    pattern_duration: u64,
    obs: Seq<(int, bool)>,
)
    ensures
        ({
            let tops = iteration_steps(
                run_of(
                    count_in,
                    body,
                    count_in_duration as int,
                    pattern_duration as int,
                    initial_state(),
                    obs,
                ),
            );
            &&& forall|k: int| 0 <= k < tops.len() ==> iteration_of_step(#[trigger] tops[k]) == k
            &&& forall|k: int|
                0 <= k < tops.len() ==> (#[trigger] tops[k] matches Step::BeginIteration {
                    ideal_start,
                    ..
                } ==> ideal_start == count_in_duration + k * pattern_duration)
        }),
{
    lemma_iteration_steps_from(count_in, body, count_in_duration, pattern_duration, initial_state(), obs);
}

} // verus!
