//! The timed trial runner of one preset, as a state machine: the caller
//! measures one hash computation at a time and hands each outcome in; the
//! machine keeps the statistics and says what to paint and what to do next.

use vstd::prelude::*;
use crate::benchmark::{lemma_total_bounded, mean, BenchmarkResult, WorkerOutcome};
use crate::error::{BenchError, HashError};
use crate::hashers::Preset;
use crate::render::{completion_mark, progress_line, RenderWrite, RenderWriteView};

verus! {

/// The largest duration of one trial, in milliseconds: that of the longest
/// time span that the clock can give.
pub const MAX_TRIAL_MILLIS: u128 = 18_446_744_073_709_551_615_999;

/// A monotonic point in time.
#[verifier::external_type_specification]
#[verifier::external_body]
pub struct ExInstant(std::time::Instant);

/// The string that every trial hashes, the same for all presets.
pub const BENCHMARK_INPUT: &'static str = "examplestringForHash12312033$$$";

/// Calls `Instant::now` of std. Nothing is stated of the instant.
#[verifier::external_body]
fn clock_now() -> std::time::Instant {
    std::time::Instant::now()
}

/// Calls `Instant::elapsed` of std. Nothing is stated of the time span.
#[verifier::external_body]
fn clock_elapsed(start: &std::time::Instant) -> core::time::Duration {
    start.elapsed()
}

/// Calls `Duration::as_millis` of std. A time span holds whole seconds in a
/// `u64` and less than a second beside them, so its whole milliseconds are at
/// most `MAX_TRIAL_MILLIS`.
#[verifier::external_body]
fn whole_millis(span: &core::time::Duration) -> (r: u128)
    ensures
        r <= MAX_TRIAL_MILLIS,
{
    span.as_millis()
}

/// Hashes `input` once under `preset` and measures how long that took, in
/// whole milliseconds.
pub fn hash_timed(preset: Preset, input: &str) -> (r: Result<(String, u128), HashError>)
    ensures
        r matches Ok(timed) ==> timed.1 <= MAX_TRIAL_MILLIS && preset.admits(Ok(timed.0)),
        r matches Err(e) ==> preset.admits(Err(e)),
{
    let start = clock_now();
    let outcome = preset.hash(input);
    let span = clock_elapsed(&start);
    match outcome {
        Ok(hash) => Ok((hash, whole_millis(&span))),
        Err(e) => Err(e),
    }
}

/// What a timed hash computation gives to a run: of one that succeeded the
/// duration alone, and of one that failed the failure as it is.
pub open spec fn duration_kept(timed: Result<(String, u128), HashError>) -> Result<
    u128,
    HashError,
> {
    match timed {
        Ok(pair) => Ok(pair.1),
        Err(e) => Err(e),
    }
}

/// Takes a timed hash computation and drops the hash string: only the
/// duration counts for a run. A failure is handed on as it is.
pub fn duration_of(timed: Result<(String, u128), HashError>) -> (r: Result<u128, HashError>)
    ensures
        r == duration_kept(timed),
{
    match timed {
        Ok(pair) => Ok(pair.1),
        Err(e) => Err(e),
    }
}

/// Hashes `input` once under `preset` and measures how long that took, in
/// whole milliseconds. The hash string is dropped: only the duration counts.
/// Whether there is a duration lies with the hash computation, and what it
/// is with the clock.
pub fn timed_hash(preset: Preset, input: &str) -> (r: Result<u128, HashError>)
    ensures
        r matches Ok(duration) ==> duration <= MAX_TRIAL_MILLIS,
        r matches Err(e) ==> preset.admits(Err(e)),
{
    duration_of(hash_timed(preset, input))
}

/// Where a run stands.
pub ghost enum TrialState {
    /// Trials are still to be measured; these are recorded.
    Running(Seq<u128>),
    /// All trials are recorded.
    Finished(Seq<u128>),
    /// A hash computation failed.
    Failed,
}

/// Where a run of `repeats` trials starts.
pub open spec fn begin_state(repeats: u16) -> TrialState {
    if repeats == 0 {
        TrialState::Finished(Seq::empty())
    } else {
        TrialState::Running(Seq::empty())
    }
}

/// Where a run of `repeats` trials stands after one more outcome: a duration
/// in milliseconds, or nothing for a failed hash computation.
pub open spec fn step_state(repeats: u16, recorded: Seq<u128>, outcome: Option<u128>)
    -> TrialState {
    match outcome {
        None => TrialState::Failed,
        Some(duration) => if recorded.len() + 1 == repeats {
            TrialState::Finished(recorded.push(duration))
        } else {
            TrialState::Running(recorded.push(duration))
        },
    }
}

/// Where a run of `repeats` trials stands after the given outcomes, in
/// order. Outcomes that come after the end of the run change nothing.
pub open spec fn run_state(repeats: u16, outcomes: Seq<Option<u128>>) -> TrialState
    decreases outcomes.len(),
{
    if outcomes.len() == 0 {
        begin_state(repeats)
    } else {
        match run_state(repeats, outcomes.drop_last()) {
            TrialState::Running(recorded) => step_state(repeats, recorded, outcomes.last()),
            ended => ended,
        }
    }
}

/// The outcomes of trials that all succeeded, with the given durations.
pub open spec fn all_measured(durations: Seq<u128>) -> Seq<Option<u128>> {
    Seq::new(durations.len(), |i: int| Some(durations[i]))
}

/// While every hash computation succeeds, a run records each duration in
/// order, and it is finished exactly when as many are recorded as were asked
/// for. In particular a run of no trials is finished from the start.
pub proof fn lemma_run_records_every_trial(repeats: u16, durations: Seq<u128>)
    requires
        durations.len() <= repeats,
    ensures
        run_state(repeats, all_measured(durations)) == if durations.len() == repeats {
            TrialState::Finished(durations)
        } else {
            TrialState::Running(durations)
        },
    decreases durations.len(),
{
    if durations.len() == 0 {
        assert(durations =~= Seq::<u128>::empty());
    } else {
        let earlier = durations.drop_last();
        lemma_run_records_every_trial(repeats, earlier);
        assert(all_measured(durations).drop_last() =~= all_measured(earlier));
        assert(earlier.push(durations.last()) =~= durations);
    }
}

/// A failed hash computation ends a run that was still measuring, whatever
/// was recorded before, and nothing that comes after brings it back.
pub proof fn lemma_failure_ends_run(repeats: u16, outcomes: Seq<Option<u128>>, at: int)
    requires
        0 <= at < outcomes.len(),
        outcomes[at] is None,
        run_state(repeats, outcomes.take(at)) is Running,
    ensures
        run_state(repeats, outcomes) == TrialState::Failed,
    decreases outcomes.len(),
{
    if at == outcomes.len() - 1 {
        assert(outcomes.drop_last() =~= outcomes.take(at));
    } else {
        assert(outcomes.drop_last().take(at) =~= outcomes.take(at));
        lemma_failure_ends_run(repeats, outcomes.drop_last(), at);
    }
}

/// What is painted at the start of a run: the completion marker if there is
/// nothing to measure.
pub open spec fn begin_writes(line: u16, repeats: u16) -> Seq<RenderWriteView> {
    if repeats == 0 {
        seq![completion_mark(line)]
    } else {
        Seq::empty()
    }
}

/// What is painted after a measured trial: the progress text, and after the
/// last trial the completion marker.
pub open spec fn step_writes(
    line: u16,
    name: Seq<char>,
    repeats: u16,
    recorded: Seq<u128>,
    duration: u128,
) -> Seq<RenderWriteView> {
    let progress = progress_line(
        line,
        name,
        recorded.len() + 1,
        repeats as nat,
        mean(recorded.push(duration)),
    );
    if recorded.len() + 1 == repeats {
        seq![progress, completion_mark(line)]
    } else {
        seq![progress]
    }
}

/// Everything that is painted in a run of `repeats` trials up to and with
/// the last of the given outcomes, in order.
pub open spec fn run_writes(
    line: u16,
    name: Seq<char>,
    repeats: u16,
    outcomes: Seq<Option<u128>>,
) -> Seq<RenderWriteView>
    decreases outcomes.len(),
{
    if outcomes.len() == 0 {
        begin_writes(line, repeats)
    } else {
        let earlier = run_writes(line, name, repeats, outcomes.drop_last());
        match (run_state(repeats, outcomes.drop_last()), outcomes.last()) {
            (TrialState::Running(recorded), Some(duration)) => earlier + step_writes(
                line,
                name,
                repeats,
                recorded,
                duration,
            ),
            _ => earlier,
        }
    }
}

/// Whether a run of `repeats` trials that ended in `end`, with `writes`
/// painted, is the run of the given outcomes: at most as many as trials were
/// asked for, each at most `MAX_TRIAL_MILLIS`.
pub open spec fn is_run_of(
    end: TrialState,
    writes: Seq<RenderWriteView>,
    line: u16,
    name: Seq<char>,
    repeats: u16,
    outcomes: Seq<Option<u128>>,
) -> bool {
    &&& outcomes.len() <= repeats
    &&& forall|i: int|
        0 <= i < outcomes.len() ==> (#[trigger] outcomes[i] matches Some(duration) ==> duration
            <= MAX_TRIAL_MILLIS)
    &&& end == run_state(repeats, outcomes)
    &&& writes == run_writes(line, name, repeats, outcomes)
}

/// Whether every one of the writes is on row `line`.
pub open spec fn all_on_row(writes: Seq<RenderWriteView>, line: u16) -> bool {
    forall|i: int| 0 <= i < writes.len() ==> (#[trigger] writes[i]).row == line
}

/// Whatever the outcomes are, a run paints on its own row only.
pub proof fn lemma_run_stays_in_its_row(
    line: u16,
    name: Seq<char>,
    repeats: u16,
    outcomes: Seq<Option<u128>>,
)
    ensures
        all_on_row(run_writes(line, name, repeats, outcomes), line),
    decreases outcomes.len(),
{
    if outcomes.len() > 0 {
        let earlier = run_writes(line, name, repeats, outcomes.drop_last());
        lemma_run_stays_in_its_row(line, name, repeats, outcomes.drop_last());
        match (run_state(repeats, outcomes.drop_last()), outcomes.last()) {
            (TrialState::Running(recorded), Some(duration)) => {
                let added = step_writes(line, name, repeats, recorded, duration);
                assert(all_on_row(added, line));
                assert forall|i: int| 0 <= i < (earlier + added).len() implies (#[trigger] (earlier
                    + added)[i]).row == line by {
                    if i < earlier.len() {
                        assert((earlier + added)[i] == earlier[i]);
                    } else {
                        assert((earlier + added)[i] == added[i - earlier.len()]);
                    }
                }
            },
            _ => {},
        }
    }
}

/// The writes as plain values.
pub open spec fn write_views(writes: Seq<RenderWrite>) -> Seq<RenderWriteView> {
    Seq::new(writes.len(), |i: int| writes[i]@)
}

/// The outcome of one trial as the state machine reads it.
pub open spec fn measured(outcome: Result<u128, HashError>) -> Option<u128> {
    match outcome {
        Ok(duration) => Some(duration),
        Err(_) => None,
    }
}

/// A run of one preset that still has trials to measure.
#[derive(Debug)]
pub struct TrialRun {
    preset: Preset,
    repeats: u16,
    line: u16,
    result: BenchmarkResult,
}

/// What the worker does after a transition.
#[derive(Debug)]
pub enum Next {
    /// Measure one more hash computation and hand its outcome to `step`.
    Measure(TrialRun),
    /// Stop: every trial is recorded.
    Finished(BenchmarkResult),
    /// Stop: the preset has no result.
    Failed(BenchError),
}

/// One transition of a run: what to paint, in order, and what to do next.
#[derive(Debug)]
pub struct Transition {
    pub writes: Vec<RenderWrite>,
    pub next: Next,
}

impl Next {
    /// Where the run stands.
    pub open spec fn state(&self) -> TrialState {
        match self {
            Next::Measure(run) => TrialState::Running(run.recorded()),
            Next::Finished(result) => TrialState::Finished(result.iterations@),
            Next::Failed(_) => TrialState::Failed,
        }
    }

    /// What the worker of `preset` hands back at the end of its run: the
    /// measurements of a finished run, or why a failed run has none. A run
    /// that still measures has nothing to hand back.
    pub fn into_outcome(self, preset: Preset) -> (r: Option<WorkerOutcome>)
        ensures
            match self {
                Next::Measure(_) => r is None,
                Next::Finished(result) => r == Some(WorkerOutcome { preset, result: Ok(result) }),
                Next::Failed(e) => r == Some(WorkerOutcome { preset, result: Err(e) }),
            },
    {
        match self {
            Next::Measure(_) => None,
            Next::Finished(result) => Some(WorkerOutcome { preset, result: Ok(result) }),
            Next::Failed(e) => Some(WorkerOutcome { preset, result: Err(e) }),
        }
    }
}

impl TrialRun {
    #[verifier::type_invariant]
    spec fn inv(self) -> bool {
        &&& self.result.iterations@.len() < self.repeats
        &&& self.result.wf()
        &&& forall|i: int|
            0 <= i < self.result.iterations@.len() ==> self.result.iterations@[i]
                <= MAX_TRIAL_MILLIS
    }

    /// The preset that is measured.
    pub closed spec fn spec_preset(self) -> Preset {
        self.preset
    }

    /// The number of trials asked for.
    pub closed spec fn spec_repeats(self) -> u16 {
        self.repeats
    }

    /// The terminal row of the run.
    pub closed spec fn spec_line(self) -> u16 {
        self.line
    }

    /// The durations recorded so far, in order.
    pub closed spec fn recorded(self) -> Seq<u128> {
        self.result.iterations@
    }

    /// The preset that is measured.
    pub fn preset(&self) -> (r: Preset)
        ensures
            r == self.spec_preset(),
    {
        self.preset
    }

    /// The number of trials asked for.
    pub fn repeats(&self) -> (r: u16)
        ensures
            r == self.spec_repeats(),
    {
        self.repeats
    }

    /// The terminal row of the run.
    pub fn line(&self) -> (r: u16)
        ensures
            r == self.spec_line(),
    {
        self.line
    }

    /// The number of trials recorded so far.
    pub fn completed(&self) -> (r: u16)
        ensures
            r == self.recorded().len(),
            r < self.spec_repeats(),
    {
        proof {
            use_type_invariant(self);
        }
        self.result.iterations.len() as u16
    }

    /// Starts a run of `repeats` trials of `preset` on terminal row `line`.
    ///
    /// With no trial asked for the run is finished at once, with an empty
    /// result of average 0.
    pub fn begin(preset: Preset, repeats: u16, line: u16) -> (r: Transition)
        ensures
            r.next.state() == begin_state(repeats),
            write_views(r.writes@) == begin_writes(line, repeats),
            r.next matches Next::Measure(run) ==> run.spec_preset() == preset && run.spec_repeats()
                == repeats && run.spec_line() == line && run.recorded().len() < repeats,
            r.next matches Next::Finished(result) ==> result.average == 0,
            all_on_row(write_views(r.writes@), line),
    {
        let result = BenchmarkResult::new();
        let mut writes: Vec<RenderWrite> = Vec::new();
        if repeats == 0 {
            writes.push(RenderWrite::completion(line));
            assert(write_views(writes@) =~= begin_writes(line, repeats));
            Transition { writes, next: Next::Finished(result) }
        } else {
            assert(write_views(writes@) =~= begin_writes(line, repeats));
            Transition { writes, next: Next::Measure(TrialRun { preset, repeats, line, result }) }
        }
    }

    /// Takes the outcome of one measured hash computation.
    ///
    /// A duration is recorded and the average recomputed; after the last
    /// trial the run is finished. A failure ends the run without a result.
    pub fn step(self, outcome: Result<u128, HashError>) -> (r: Transition)
        requires
            outcome matches Ok(duration) ==> duration <= MAX_TRIAL_MILLIS,
        ensures
            r.next.state() == step_state(self.spec_repeats(), self.recorded(), measured(outcome)),
            r.next matches Next::Measure(run) ==> run.spec_preset() == self.spec_preset()
                && run.spec_repeats() == self.spec_repeats() && run.spec_line()
                == self.spec_line() && run.recorded().len() < run.spec_repeats(),
            r.next matches Next::Finished(result) ==> result.wf(),
            r.next matches Next::Failed(e) ==> outcome is Err && e == (
            BenchError::HashComputationFailed {
                preset: self.spec_preset(),
                cause: outcome->Err_0,
            }),
            outcome matches Ok(duration) ==> write_views(r.writes@) == step_writes(
                self.spec_line(),
                self.spec_preset().spec_name(),
                self.spec_repeats(),
                self.recorded(),
                duration,
            ),
            outcome is Err ==> r.writes@.len() == 0,
            all_on_row(write_views(r.writes@), self.spec_line()),
    {
        proof {
            use_type_invariant(&self);
        }
        let TrialRun { preset, repeats, line, result } = self;
        let mut result = result;
        match outcome {
            Err(cause) => Transition {
                writes: Vec::new(),
                next: Next::Failed(BenchError::HashComputationFailed { preset, cause }),
            },
            Ok(duration) => {
                proof {
                    lemma_total_bounded(result.iterations@, MAX_TRIAL_MILLIS as nat);
                    assert(MAX_TRIAL_MILLIS * result.iterations@.len() <= MAX_TRIAL_MILLIS * 65535)
                        by (nonlinear_arith)
                        requires
                            result.iterations@.len() <= 65535,
                    ;
                }
                let ghost before = result.iterations@;
                result.add_iteration(duration);
                let current = result.iterations.len() as u16;
                let mut writes: Vec<RenderWrite> = Vec::new();
                writes.push(RenderWrite::progress(line, preset.name(), current, repeats, result.average));
                if current == repeats {
                    writes.push(RenderWrite::completion(line));
                    assert(write_views(writes@) =~= step_writes(
                        line,
                        preset.spec_name(),
                        repeats,
                        before,
                        duration,
                    ));
                    Transition { writes, next: Next::Finished(result) }
                } else {
                    assert(write_views(writes@) =~= step_writes(
                        line,
                        preset.spec_name(),
                        repeats,
                        before,
                        duration,
                    ));
                    Transition {
                        writes,
                        next: Next::Measure(TrialRun { preset, repeats, line, result }),
                    }
                }
            },
        }
    }
}

/// Runs all trials of one preset, one after the other, each on the benchmark
/// input, and returns everything that a renderer would have painted on the
/// way together with the end of the run.
///
/// The run is the one that the state machine gives for the outcomes of the
/// hash computations: a finished run holds exactly `repeats` durations, and a
/// failed hash computation ends the run at once, without a result. A run of
/// no trials hashes nothing and is finished.
pub fn run_trials(preset: Preset, repeats: u16, line: u16) -> (r: Transition)
    ensures
        !(r.next is Measure),
        exists|outcomes: Seq<Option<u128>>|
            is_run_of(
                r.next.state(),
                write_views(r.writes@),
                line,
                preset.spec_name(),
                repeats,
                outcomes,
            ),
        repeats == 0 ==> r.next is Finished,
        r.next matches Next::Finished(result) ==> result.iterations@.len() == repeats
            && result.wf(),
        r.next matches Next::Failed(e) ==> (e matches BenchError::HashComputationFailed {
            preset: failed,
            cause,
        } && failed == preset && preset.admits(Err(cause))),
        all_on_row(write_views(r.writes@), line),
{
    let first = TrialRun::begin(preset, repeats, line);
    let mut writes = first.writes;
    let mut next = first.next;
    let ghost mut outcomes: Seq<Option<u128>> = Seq::empty();
    loop
        invariant
            is_run_of(
                next.state(),
                write_views(writes@),
                line,
                preset.spec_name(),
                repeats,
                outcomes,
            ),
            repeats == 0 ==> next is Finished,
            all_on_row(write_views(writes@), line),
            next matches Next::Measure(run) ==> run.spec_preset() == preset && run.spec_repeats()
                == repeats && run.spec_line() == line && run.recorded().len() < repeats
                && run.recorded().len() == outcomes.len(),
            next matches Next::Finished(result) ==> result.iterations@.len() == repeats
                && result.wf(),
            next matches Next::Failed(e) ==> (e matches BenchError::HashComputationFailed {
                preset: failed,
                cause,
            } && failed == preset && preset.admits(Err(cause))),
        decreases
            match next {
                Next::Measure(run) => repeats - run.recorded().len() + 1,
                _ => 0,
            },
    {
        match next {
            Next::Measure(run) => {
                let outcome = timed_hash(preset, BENCHMARK_INPUT);
                let ghost earlier_writes = write_views(writes@);
                let ghost earlier = outcomes;
                let mut transition = run.step(outcome);
                proof {
                    outcomes = earlier.push(measured(outcome));
                    assert(outcomes.drop_last() == earlier);
                    assert(write_views(writes@ + transition.writes@) == earlier_writes
                        + write_views(transition.writes@));
                }
                writes.append(&mut transition.writes);
                next = transition.next;
            },
            ended => {
                let end = Transition { writes, next: ended };
                assert(is_run_of(
                    end.next.state(),
                    write_views(end.writes@),
                    line,
                    preset.spec_name(),
                    repeats,
                    outcomes,
                ));
                return end;
            },
        }
    }
}

} // verus!
