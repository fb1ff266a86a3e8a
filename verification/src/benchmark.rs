//! Per-preset trial statistics and the combined report.

use vstd::prelude::*;
use crate::cpuinfo::CpuInfo;
use crate::error::BenchError;
use crate::hashers::{lemma_name_identifies, Preset};
use crate::render::{RenderWrite, RenderWriteView};
use crate::runner::{
    all_on_row, is_run_of, lemma_run_stays_in_its_row, run_trials, run_writes, write_views,
    TrialState,
};
use crate::text::{decimal, decimal_string};
use crate::worklist::{row_of, Worklist};

verus! {

/// A point in calendar time.
#[verifier::external_type_specification]
#[verifier::external_body]
pub struct ExSystemTime(std::time::SystemTime);

/// The sum of the recorded durations.
pub open spec fn total(durations: Seq<u128>) -> nat
    decreases durations.len(),
{
    if durations.len() == 0 {
        0
    } else {
        total(durations.drop_last()) + durations.last() as nat
    }
}

/// The running average: the sum of the durations divided by their count,
/// rounded down, and 0 while nothing is recorded.
pub open spec fn mean(durations: Seq<u128>) -> nat {
    if durations.len() == 0 {
        0
    } else {
        total(durations) / durations.len()
    }
}

/// The sum of a prefix never exceeds the sum of the whole.
pub proof fn lemma_total_prefix(durations: Seq<u128>, n: int)
    requires
        0 <= n <= durations.len(),
    ensures
        total(durations.take(n)) <= total(durations),
    decreases durations.len(),
{
    if n == durations.len() {
        assert(durations.take(n) == durations);
    } else {
        lemma_total_prefix(durations.drop_last(), n);
        assert(durations.drop_last().take(n) == durations.take(n));
    }
}

/// The sum grows by exactly what is appended.
pub proof fn lemma_total_push(durations: Seq<u128>, duration: u128)
    ensures
        total(durations.push(duration)) == total(durations) + duration,
{
    assert(durations.push(duration).drop_last() == durations);
}

/// With every duration at most `bound`, the sum is at most `bound` times the
/// count.
pub proof fn lemma_total_bounded(durations: Seq<u128>, bound: nat)
    requires
        forall|i: int| 0 <= i < durations.len() ==> durations[i] <= bound,
    ensures
        total(durations) <= bound * durations.len(),
    decreases durations.len(),
{
    if durations.len() > 0 {
        lemma_total_bounded(durations.drop_last(), bound);
        assert(bound * durations.len() == bound * (durations.len() - 1) + bound)
            by (nonlinear_arith);
    }
}

/// The measurements of one preset: the duration of each trial in
/// milliseconds, in the order of completion, and their running average.
#[derive(Debug, Clone)]
pub struct BenchmarkResult {
    pub average: u128,
    pub iterations: Vec<u128>,
}

/// The measurements of one preset as a plain value.
pub ghost struct Measurements {
    pub average: u128,
    pub iterations: Seq<u128>,
}

impl View for BenchmarkResult {
    type V = Measurements;

    open spec fn view(&self) -> Measurements {
        Measurements { average: self.average, iterations: self.iterations@ }
    }
}

impl BenchmarkResult {
    /// The average is the one that the recorded durations give.
    pub open spec fn wf(&self) -> bool {
        self.average == mean(self.iterations@)
    }

    /// A result with nothing recorded.
    pub fn new() -> (r: Self)
        ensures
            r.iterations@ == Seq::<u128>::empty(),
            r.average == 0,
            r.wf(),
    {
        Self { average: 0, iterations: Vec::new() }
    }

    /// Records one more trial and recomputes the average from all of them.
    pub fn add_iteration(&mut self, duration: u128)
        requires
            total(old(self).iterations@) + duration <= u128::MAX,
        ensures
            final(self).iterations@ == old(self).iterations@.push(duration),
            final(self).average == total(final(self).iterations@) / final(self).iterations@.len(),
            final(self).wf(),
    {
        proof {
            lemma_total_push(self.iterations@, duration);
        }
        self.iterations.push(duration);
        let sum = sum_of(&self.iterations);
        let count = self.iterations.len() as u128;
        self.average = sum / count;
    }
}

/// Adds up the durations.
fn sum_of(durations: &Vec<u128>) -> (r: u128)
    requires
        total(durations@) <= u128::MAX,
    ensures
        r == total(durations@),
{
    let mut sum: u128 = 0;
    let mut i: usize = 0;
    while i < durations.len()
        invariant
            i <= durations.len(),
            sum == total(durations@.take(i as int)),
            total(durations@) <= u128::MAX,
        decreases durations.len() - i,
    {
        proof {
            lemma_total_prefix(durations@, i + 1);
            assert(durations@.take(i + 1).drop_last() == durations@.take(i as int));
        }
        sum = sum + durations[i];
        i += 1;
    }
    proof {
        assert(durations@.take(durations@.len() as int) == durations@);
    }
    sum
}

/// One line of the report: a preset's display name and its measurements.
#[derive(Debug, Clone)]
pub struct ReportEntry {
    pub name: String,
    pub result: BenchmarkResult,
}

/// What a worker hands back when it is joined: its preset, and the
/// measurements or the reason why there are none.
#[derive(Debug)]
pub struct WorkerOutcome {
    pub preset: Preset,
    pub result: Result<BenchmarkResult, BenchError>,
}

/// Whether no name occurs twice among the entries.
pub open spec fn distinct_names(entries: Seq<ReportEntry>) -> bool {
    forall|i: int, j: int|
        0 <= i < j < entries.len() ==> (#[trigger] entries[i]).name@ != (#[trigger] entries[j]).name@
}

/// Whether `name` occurs at `position` of the entries.
pub open spec fn named_at(entries: Seq<ReportEntry>, name: Seq<char>, position: int) -> bool {
    0 <= position < entries.len() && entries[position].name@ == name
}

/// The entries as a mapping from name to measurements.
pub open spec fn entries_map(entries: Seq<ReportEntry>) -> Map<Seq<char>, Measurements> {
    Map::new(
        |name: Seq<char>| exists|i: int| named_at(entries, name, i),
        |name: Seq<char>| entries[choose|i: int| named_at(entries, name, i)].result@,
    )
}

/// The mapping after one worker is joined: its measurements stand under the
/// display name of its preset, in place of earlier ones; a worker without
/// measurements changes nothing.
pub open spec fn recorded(base: Map<Seq<char>, Measurements>, outcome: WorkerOutcome) -> Map<
    Seq<char>,
    Measurements,
> {
    match outcome.result {
        Ok(result) => base.insert(outcome.preset.spec_name(), result@),
        Err(_) => base,
    }
}

/// The mapping after the workers are joined in the given order.
pub open spec fn collected(base: Map<Seq<char>, Measurements>, outcomes: Seq<WorkerOutcome>)
    -> Map<Seq<char>, Measurements>
    decreases outcomes.len(),
{
    if outcomes.len() == 0 {
        base
    } else {
        recorded(collected(base, outcomes.drop_last()), outcomes.last())
    }
}

/// The presets that a selector picks, in launch order: the one that it
/// names, ASCII case aside, or all of them where there is no selector. A
/// selector that names no preset picks nothing.
pub open spec fn selection(selector: Option<String>) -> Option<Seq<Preset>> {
    match selector {
        None => Some(Preset::all()),
        Some(name) => match Preset::lookup(name@) {
            Some(preset) => Some(seq![preset]),
            None => None,
        },
    }
}

/// How the run of a worker ended, as what it hands back tells it.
pub open spec fn end_state(result: Result<BenchmarkResult, BenchError>) -> TrialState {
    match result {
        Ok(measurements) => TrialState::Finished(measurements.iterations@),
        Err(_) => TrialState::Failed,
    }
}

/// Whether the outcomes are those of one worker for each of the presets, in
/// launch order: measurements of exactly `repeats` trials with their
/// average, or a failed hash computation of that preset, of a kind that the
/// preset admits. Where no trial is asked for nothing is hashed, so no
/// worker fails.
pub open spec fn outcomes_of(outcomes: Seq<WorkerOutcome>, presets: Seq<Preset>, repeats: u16)
    -> bool {
    &&& outcomes.len() == presets.len()
    &&& forall|i: int|
        0 <= i < outcomes.len() ==> {
            &&& (#[trigger] outcomes[i]).preset == presets[i]
            &&& match outcomes[i].result {
                Ok(result) => result.iterations@.len() == repeats && result.wf(),
                Err(e) => repeats > 0 && (e matches BenchError::HashComputationFailed {
                    preset,
                    cause,
                } && preset == presets[i] && presets[i].admits(Err(cause))),
            }
        }
}

/// What the first `count` workers paint, in launch order: each the writes of
/// its own run, on the row of its place in the worklist.
pub open spec fn launch_writes(
    presets: Seq<Preset>,
    repeats: u16,
    trials: Seq<Seq<Option<u128>>>,
    count: nat,
) -> Seq<RenderWriteView>
    decreases count,
{
    if count == 0 {
        Seq::empty()
    } else {
        let position = count - 1;
        launch_writes(presets, repeats, trials, position as nat) + run_writes(
            row_of(position) as u16,
            presets[position].spec_name(),
            repeats,
            trials[position],
        )
    }
}

/// Whether `outcomes` and `writes` are those of a benchmark of `repeats`
/// trials for each of the presets, where `trials` holds for each worker the
/// outcomes of its hash computations: each worker's run is the run of its
/// trials on its own row, what it hands back is the end of that run, and
/// the writes are those of all workers in launch order.
pub open spec fn is_benchmark_of(
    outcomes: Seq<WorkerOutcome>,
    writes: Seq<RenderWriteView>,
    presets: Seq<Preset>,
    repeats: u16,
    trials: Seq<Seq<Option<u128>>>,
) -> bool {
    &&& outcomes_of(outcomes, presets, repeats)
    &&& trials.len() == presets.len()
    &&& forall|i: int|
        0 <= i < presets.len() ==> is_run_of(
            end_state(outcomes[i].result),
            run_writes(
                row_of(i) as u16,
                presets[i].spec_name(),
                repeats,
                #[trigger] trials[i],
            ),
            row_of(i) as u16,
            presets[i].spec_name(),
            repeats,
            trials[i],
        )
    &&& writes == launch_writes(presets, repeats, trials, presets.len())
}

/// What the first workers paint depends on their own presets and trials
/// only, not on the workers that are launched after them.
pub proof fn lemma_launch_writes_of_earlier(
    presets: Seq<Preset>,
    more_presets: Seq<Preset>,
    repeats: u16,
    trials: Seq<Seq<Option<u128>>>,
    more_trials: Seq<Seq<Option<u128>>>,
    count: nat,
)
    requires
        forall|i: int| 0 <= i < count ==> presets[i] == more_presets[i],
        forall|i: int| 0 <= i < count ==> trials[i] == more_trials[i],
    ensures
        launch_writes(presets, repeats, trials, count) == launch_writes(
            more_presets,
            repeats,
            more_trials,
            count,
        ),
    decreases count,
{
    if count > 0 {
        lemma_launch_writes_of_earlier(
            presets,
            more_presets,
            repeats,
            trials,
            more_trials,
            (count - 1) as nat,
        );
    }
}

/// With one worker for each preset, the measurements of every worker that
/// has some stand in the report under the display name of its preset,
/// whatever stood there before and whatever became of the other workers.
pub proof fn lemma_successes_are_kept(
    base: Map<Seq<char>, Measurements>,
    outcomes: Seq<WorkerOutcome>,
    position: int,
)
    requires
        one_worker_each(outcomes),
        0 <= position < outcomes.len(),
        outcomes[position].result is Ok,
    ensures
        collected(base, outcomes).contains_key(outcomes[position].preset.spec_name()),
        collected(base, outcomes)[outcomes[position].preset.spec_name()]
            == outcomes[position].result->Ok_0@,
    decreases outcomes.len(),
{
    let earlier = outcomes.drop_last();
    let last = outcomes.len() - 1;
    if position < last {
        assert(one_worker_each(earlier)) by {
            assert forall|i: int, j: int| 0 <= i < j < earlier.len() implies (
            #[trigger] earlier[i]).preset != (#[trigger] earlier[j]).preset by {
                assert(outcomes[i].preset != outcomes[j].preset);
            }
        }
        lemma_successes_are_kept(base, earlier, position);
        if outcomes[last].preset.spec_name() == outcomes[position].preset.spec_name() {
            lemma_name_identifies(outcomes[last].preset, outcomes[position].preset);
            assert(outcomes[position].preset != outcomes[last].preset);
        }
    }
}

/// The worker at `position` paints after the workers before it, and on the
/// row of its position only: rows count from 1 in launch order.
pub proof fn lemma_launch_rows(
    presets: Seq<Preset>,
    repeats: u16,
    trials: Seq<Seq<Option<u128>>>,
    position: nat,
)
    requires
        position < 65535,
    ensures
        launch_writes(presets, repeats, trials, position + 1) == launch_writes(
            presets,
            repeats,
            trials,
            position,
        ) + run_writes(
            (position + 1) as u16,
            presets[position as int].spec_name(),
            repeats,
            trials[position as int],
        ),
        all_on_row(
            run_writes(
                (position + 1) as u16,
                presets[position as int].spec_name(),
                repeats,
                trials[position as int],
            ),
            (position + 1) as u16,
        ),
{
    lemma_run_stays_in_its_row(
        (position + 1) as u16,
        presets[position as int].spec_name(),
        repeats,
        trials[position as int],
    );
}

/// Whether each write is on the row of one of `count` workers.
pub open spec fn on_worker_rows(writes: Seq<RenderWrite>, count: nat) -> bool {
    forall|i: int| 0 <= i < writes.len() ==> 1 <= (#[trigger] writes[i]).row <= count
}

/// The name of the report file that is written at `epoch_seconds`.
pub open spec fn report_file_name(epoch_seconds: u64) -> Seq<char> {
    "bench_"@ + decimal(epoch_seconds as nat) + ".json"@
}

/// The combined report of one benchmark run: the host CPU, and the
/// measurements of each preset under its display name.
#[derive(Debug, Clone)]
pub struct Benchmark {
    pub cpu: CpuInfo,
    pub results: Vec<ReportEntry>,
}

impl View for Benchmark {
    type V = Map<Seq<char>, Measurements>;

    /// The measurements of the report by display name.
    open spec fn view(&self) -> Map<Seq<char>, Measurements> {
        entries_map(self.results@)
    }
}

/// Calls `SystemTime::now` of std. Nothing is stated of the time.
#[verifier::external_body]
fn system_now() -> std::time::SystemTime {
    std::time::SystemTime::now()
}

/// Calls `SystemTime::duration_since` of std with `UNIX_EPOCH`. Nothing is
/// stated of the time span; the error is the text that std gives for it.
#[verifier::external_body]
fn since_epoch(now: &std::time::SystemTime) -> Result<core::time::Duration, String> {
    now.duration_since(std::time::UNIX_EPOCH).map_err(|e| e.to_string())
}

/// Calls `Duration::as_secs` of std. Nothing is stated of the number.
#[verifier::external_body]
fn whole_seconds(span: &core::time::Duration) -> u64 {
    span.as_secs()
}

impl Benchmark {
    /// No name stands twice in the report.
    pub open spec fn wf(&self) -> bool {
        distinct_names(self.results@)
    }

    /// A report for the given host CPU, without measurements.
    pub fn new(cpu: CpuInfo) -> (r: Benchmark)
        ensures
            r.cpu == cpu,
            r.results@.len() == 0,
            r@ == Map::<Seq<char>, Measurements>::empty(),
            r.wf(),
    {
        let r = Benchmark { cpu, results: Vec::new() };
        assert(r@ =~= Map::<Seq<char>, Measurements>::empty());
        r
    }

    /// The number of presets with measurements.
    pub fn len(&self) -> (r: usize)
        ensures
            r == self.results@.len(),
    {
        self.results.len()
    }

    /// The position of `name` among the entries.
    fn position(&self, name: &String) -> (r: Option<usize>)
        ensures
            match r {
                Some(i) => named_at(self.results@, name@, i as int),
                None => forall|i: int| !named_at(self.results@, name@, i),
            },
    {
        let mut i: usize = 0;
        while i < self.results.len()
            invariant
                i <= self.results.len(),
                forall|j: int| 0 <= j < i ==> !named_at(self.results@, name@, j),
            decreases self.results.len() - i,
        {
            if self.results[i].name == *name {
                return Some(i);
            }
            i += 1;
        }
        None
    }

    /// The measurements that stand under `name`, if there are any. The name
    /// is matched as it is written.
    pub fn get(&self, name: &String) -> (r: Option<&BenchmarkResult>)
        requires
            self.wf(),
        ensures
            r is Some <==> self@.contains_key(name@),
            r matches Some(result) ==> result@ == self@[name@],
    {
        match self.position(name) {
            Some(i) => {
                proof {
                    lemma_entry_at(self.results@, name@, i as int);
                }
                Some(&self.results[i].result)
            },
            None => None,
        }
    }

    /// Puts `result` under `name`, in place of what stood there.
    pub fn insert(&mut self, name: String, result: BenchmarkResult)
        requires
            old(self).wf(),
        ensures
            final(self).wf(),
            final(self)@ == old(self)@.insert(name@, result@),
            final(self).cpu == old(self).cpu,
    {
        let ghost before = self.results@;
        let ghost key = name@;
        let ghost value = result@;
        match self.position(&name) {
            Some(i) => {
                self.results[i] = ReportEntry { name, result };
                proof {
                    lemma_replace_entry(before, self.results@, i as int);
                }
            },
            None => {
                self.results.push(ReportEntry { name, result });
                proof {
                    lemma_push_entry(before, self.results@);
                }
            },
        }
    }

    /// Takes in what one joined worker handed back: its measurements stand
    /// under the display name of its preset from now on; a worker without
    /// measurements leaves the report as it is.
    pub fn record(&mut self, outcome: WorkerOutcome)
        requires
            old(self).wf(),
        ensures
            final(self).wf(),
            final(self)@ == recorded(old(self)@, outcome),
            final(self).cpu == old(self).cpu,
    {
        let WorkerOutcome { preset, result } = outcome;
        match result {
            Ok(measurements) => {
                self.insert(preset.name().to_owned(), measurements);
            },
            Err(_) => {},
        }
    }

    /// Takes in what the joined workers handed back, in launch order. A
    /// preset whose worker has no measurements is left out, and only that
    /// one.
    pub fn collect(&mut self, outcomes: Vec<WorkerOutcome>)
        requires
            old(self).wf(),
        ensures
            final(self).wf(),
            final(self)@ == collected(old(self)@, outcomes@),
            final(self).cpu == old(self).cpu,
    {
        let ghost all = outcomes@;
        let ghost base = self@;
        for outcome in it: outcomes
            invariant
                it.seq() == all,
                self.wf(),
                self@ == collected(base, all.take(it.index())),
                self.cpu == old(self).cpu,
        {
            proof {
                assert(all.take(it.index() + 1).drop_last() == all.take(it.index()));
            }
            self.record(outcome);
        }
        proof {
            assert(all.take(all.len() as int) == all);
        }
    }

    /// Runs one benchmark of `repeats` trials for the preset that `alg`
    /// names, or for every preset where there is none, one worker after the
    /// other, and takes their measurements into the report. What the workers
    /// would have painted comes back in launch order, the writes of each
    /// worker on the row of its place in the worklist.
    ///
    /// A name that matches no preset is `PresetNotFound`: nothing is run and
    /// the report stays as it is. A preset whose hash computation fails is
    /// left out of the report, and only that one. Where no trial is asked
    /// for, nothing is hashed and every selected preset stands in the report
    /// with no durations and the average 0.
    pub fn start(&mut self, repeats: u16, alg: Option<String>) -> (r: Result<
        Vec<RenderWrite>,
        BenchError,
    >)
        requires
            old(self).wf(),
        ensures
            final(self).wf(),
            final(self).cpu == old(self).cpu,
            match selection(alg) {
                None => r matches Err(BenchError::PresetNotFound(name)) && name@ == alg->Some_0@
                    && final(self).results@ == old(self).results@,
                Some(presets) => r matches Ok(writes) && on_worker_rows(writes@, presets.len())
                    && (exists|outcomes: Seq<WorkerOutcome>, trials: Seq<Seq<Option<u128>>>|
                    #[trigger] is_benchmark_of(
                        outcomes,
                        write_views(writes@),
                        presets,
                        repeats,
                        trials,
                    ) && final(self)@ == collected(old(self)@, outcomes)) && (repeats == 0
                    ==> forall|i: int|
                    0 <= i < presets.len() ==> final(self)@.contains_key(
                        #[trigger] presets[i].spec_name(),
                    ) && final(self)@[presets[i].spec_name()] == (Measurements {
                        average: 0,
                        iterations: Seq::empty(),
                    })),
            },
    {
        let ghost selector = alg;
        let worklist = match Worklist::resolve(alg) {
            Ok(worklist) => worklist,
            Err(e) => {
                return Err(e);
            },
        };
        let assignments = worklist.assignments();
        let ghost presets = worklist.presets();
        let ghost mut trials: Seq<Seq<Option<u128>>> = Seq::empty();
        let mut outcomes: Vec<WorkerOutcome> = Vec::new();
        let mut writes: Vec<RenderWrite> = Vec::new();
        let mut i: usize = 0;
        proof {
            assert(write_views(writes@) =~= Seq::<RenderWriteView>::empty());
            assert(presets.take(0).len() == 0);
        }
        while i < assignments.len()
            invariant
                i <= assignments.len(),
                assignments@.len() == presets.len(),
                presets.len() <= u16::MAX,
                forall|j: int|
                    0 <= j < assignments@.len() ==> (#[trigger] assignments@[j]).preset
                        == presets[j] && assignments@[j].line == row_of(j),
                is_benchmark_of(
                    outcomes@,
                    write_views(writes@),
                    presets.take(i as int),
                    repeats,
                    trials,
                ),
                on_worker_rows(writes@, presets.len()),
            decreases assignments.len() - i,
        {
            let assignment = assignments[i];
            let mut end = run_trials(assignment.preset, repeats, assignment.line);
            let ghost earlier_trials = trials;
            let ghost earlier_writes = write_views(writes@);
            let ghost painted = write_views(end.writes@);
            let ghost end_of_run = end.next.state();
            proof {
                let run = choose|run: Seq<Option<u128>>|
                    is_run_of(
                        end_of_run,
                        painted,
                        assignment.line,
                        assignment.preset.spec_name(),
                        repeats,
                        run,
                    );
                trials = earlier_trials.push(run);
                assert forall|k: int| 0 <= k < end.writes@.len() implies 1 <= (
                #[trigger] end.writes@[k]).row <= presets.len() by {
                    assert(painted[k].row == assignment.line);
                }
                assert(write_views(writes@ + end.writes@) == earlier_writes + painted);
                lemma_launch_writes_of_earlier(
                    presets.take(i as int),
                    presets.take(i + 1),
                    repeats,
                    earlier_trials,
                    trials,
                    i as nat,
                );
            }
            writes.append(&mut end.writes);
            match end.next.into_outcome(assignment.preset) {
                Some(outcome) => {
                    outcomes.push(outcome);
                },
                None => {},
            }
            i += 1;
        }
        let ghost handed = outcomes@;
        proof {
            assert(presets.take(presets.len() as int) == presets);
        }
        self.collect(outcomes);
        proof {
            assert(is_benchmark_of(handed, write_views(writes@), presets, repeats, trials)
                && self@ == collected(old(self)@, handed));
            if repeats == 0 {
                assert forall|k: int| 0 <= k < presets.len() implies self@.contains_key(
                    #[trigger] presets[k].spec_name(),
                ) && self@[presets[k].spec_name()] == (Measurements {
                    average: 0,
                    iterations: Seq::empty(),
                }) by {
                    assert(one_worker_each(handed)) by {
                        assert forall|a: int, b: int| 0 <= a < b < handed.len() implies (
                        #[trigger] handed[a]).preset != (#[trigger] handed[b]).preset by {
                            lemma_selection_is_distinct(selector, a, b);
                        }
                    }
                    lemma_successes_are_kept(old(self)@, handed, k);
                    assert(handed[k].result->Ok_0.iterations@ =~= Seq::<u128>::empty());
                }
            }
        }
        Ok(writes)
    }

    /// The name of the report file for a run that is saved at `epoch_seconds`.
    pub fn file_name(epoch_seconds: u64) -> (r: String)
        ensures
            r@ == report_file_name(epoch_seconds),
    {
        let mut r = "bench_".to_owned();
        r.append(decimal_string(epoch_seconds as u128).as_str());
        r.append(".json");
        r
    }

    /// The name of the report file for a run that is saved now: the seconds
    /// since the epoch tell it from the files of other runs. A clock that
    /// stands before the epoch is `ReportPersistenceFailed`.
    pub fn artifact_name() -> (r: Result<String, BenchError>)
        ensures
            r matches Ok(name) ==> exists|epoch_seconds: u64|
                name@ == report_file_name(epoch_seconds),
            r matches Err(e) ==> e is ReportPersistenceFailed,
    {
        let now = system_now();
        match since_epoch(&now) {
            Ok(span) => {
                let epoch_seconds = whole_seconds(&span);
                Ok(Benchmark::file_name(epoch_seconds))
            },
            Err(detail) => Err(BenchError::ReportPersistenceFailed(detail)),
        }
    }

    /// The text that tells the operator where the report was saved.
    pub fn saved_message(path: &str) -> (r: String)
        ensures
            r@ == "Benchmark results saved to `"@ + path@ + "`"@,
    {
        let mut r = "Benchmark results saved to `".to_owned();
        r.append(path);
        r.append("`");
        r
    }
}

/// Whether the worker at `position` has measurements under `name`.
pub open spec fn succeeded_as(outcomes: Seq<WorkerOutcome>, name: Seq<char>, position: int)
    -> bool {
    &&& 0 <= position < outcomes.len()
    &&& outcomes[position].result is Ok
    &&& outcomes[position].preset.spec_name() == name
}

/// After the workers are joined, a name stands in the report exactly if it
/// stood there before or a worker has measurements under it.
pub proof fn lemma_collected_names(
    base: Map<Seq<char>, Measurements>,
    outcomes: Seq<WorkerOutcome>,
    name: Seq<char>,
)
    ensures
        collected(base, outcomes).contains_key(name) <==> base.contains_key(name) || exists|
            i: int,
        | succeeded_as(outcomes, name, i),
    decreases outcomes.len(),
{
    if outcomes.len() > 0 {
        let earlier = outcomes.drop_last();
        lemma_collected_names(base, earlier, name);
        if exists|i: int| succeeded_as(earlier, name, i) {
            let i = choose|i: int| succeeded_as(earlier, name, i);
            assert(succeeded_as(outcomes, name, i));
        }
        if exists|i: int| succeeded_as(outcomes, name, i) {
            let i = choose|i: int| succeeded_as(outcomes, name, i);
            if i < outcomes.len() - 1 {
                assert(succeeded_as(earlier, name, i));
            }
        }
        if collected(base, outcomes).contains_key(name) && !collected(base, earlier).contains_key(
            name,
        ) {
            assert(succeeded_as(outcomes, name, outcomes.len() - 1));
        }
    }
}

/// Whether no preset has two workers.
pub open spec fn one_worker_each(outcomes: Seq<WorkerOutcome>) -> bool {
    forall|i: int, j: int|
        0 <= i < j < outcomes.len() ==> (#[trigger] outcomes[i]).preset != (
        #[trigger] outcomes[j]).preset
}

/// With one worker for each selected preset, a report that starts empty
/// holds the measurements of every preset whose worker has some, under the
/// preset's display name, and leaves out exactly the presets whose worker
/// has none: one preset's failure costs no other preset its place.
pub proof fn lemma_only_failures_are_omitted(outcomes: Seq<WorkerOutcome>, position: int)
    requires
        one_worker_each(outcomes),
        0 <= position < outcomes.len(),
    ensures
        ({
            let report = collected(Map::empty(), outcomes);
            let name = outcomes[position].preset.spec_name();
            match outcomes[position].result {
                Ok(result) => report.contains_key(name) && report[name] == result@,
                Err(_) => !report.contains_key(name),
            }
        }),
    decreases outcomes.len(),
{
    let base = Map::<Seq<char>, Measurements>::empty();
    let name = outcomes[position].preset.spec_name();
    let earlier = outcomes.drop_last();
    let last = outcomes.len() - 1;
    assert(one_worker_each(earlier)) by {
        assert forall|i: int, j: int| 0 <= i < j < earlier.len() implies (
        #[trigger] earlier[i]).preset != (#[trigger] earlier[j]).preset by {
            assert(outcomes[i].preset != outcomes[j].preset);
        }
    }
    if position == last {
        lemma_collected_names(base, earlier, name);
        if exists|i: int| succeeded_as(earlier, name, i) {
            let i = choose|i: int| succeeded_as(earlier, name, i);
            lemma_name_identifies(outcomes[i].preset, outcomes[position].preset);
            assert(outcomes[i].preset != outcomes[position].preset);
        }
    } else {
        lemma_only_failures_are_omitted(earlier, position);
        if outcomes[last].preset.spec_name() == name {
            lemma_name_identifies(outcomes[last].preset, outcomes[position].preset);
            assert(outcomes[position].preset != outcomes[last].preset);
        }
    }
}

/// No preset is selected twice.
pub proof fn lemma_selection_is_distinct(selector: Option<String>, i: int, j: int)
    requires
        selection(selector) is Some,
        0 <= i < j < selection(selector)->Some_0.len(),
    ensures
        selection(selector)->Some_0[i] != selection(selector)->Some_0[j],
{
    let presets = selection(selector)->Some_0;
    if selector is None {
        assert(presets[i].ordinal() == i);
        assert(presets[j].ordinal() == j);
    }
}

/// After a benchmark run into an empty report, each selected preset whose
/// hash computations all succeeded stands in the report under its display
/// name, with the durations of exactly `repeats` trials, and each selected
/// preset with a failed hash computation is left out, whatever became of
/// the others.
pub proof fn lemma_report_of_run(
    selector: Option<String>,
    outcomes: Seq<WorkerOutcome>,
    repeats: u16,
    position: int,
)
    requires
        selection(selector) is Some,
        outcomes_of(outcomes, selection(selector)->Some_0, repeats),
        0 <= position < outcomes.len(),
    ensures
        ({
            let report = collected(Map::empty(), outcomes);
            let name = selection(selector)->Some_0[position].spec_name();
            match outcomes[position].result {
                Ok(result) => report.contains_key(name) && report[name] == result@
                    && report[name].iterations.len() == repeats,
                Err(_) => !report.contains_key(name),
            }
        }),
{
    assert(one_worker_each(outcomes)) by {
        assert forall|i: int, j: int| 0 <= i < j < outcomes.len() implies (
        #[trigger] outcomes[i]).preset != (#[trigger] outcomes[j]).preset by {
            lemma_selection_is_distinct(selector, i, j);
        }
    }
    lemma_only_failures_are_omitted(outcomes, position);
}

/// Among entries without a repeated name, the entry at a position is the
/// one that the mapping gives for its name.
pub proof fn lemma_entry_at(entries: Seq<ReportEntry>, name: Seq<char>, position: int)
    requires
        distinct_names(entries),
        named_at(entries, name, position),
    ensures
        entries_map(entries).contains_key(name),
        entries_map(entries)[name] == entries[position].result@,
{
    let chosen = choose|i: int| named_at(entries, name, i);
    assert(named_at(entries, name, chosen));
    if chosen < position {
        assert(entries[chosen].name@ != entries[position].name@);
    } else if position < chosen {
        assert(entries[position].name@ != entries[chosen].name@);
    }
}

/// Replacing the entry at a position by one of the same name puts the new
/// measurements under that name and leaves the rest.
proof fn lemma_replace_entry(before: Seq<ReportEntry>, after: Seq<ReportEntry>, position: int)
    requires
        distinct_names(before),
        0 <= position < before.len(),
        after.len() == before.len(),
        after[position].name@ == before[position].name@,
        forall|i: int| 0 <= i < before.len() && i != position ==> after[i] == before[i],
    ensures
        distinct_names(after),
        entries_map(after) == entries_map(before).insert(
            after[position].name@,
            after[position].result@,
        ),
{
    assert(distinct_names(after)) by {
        assert forall|i: int, j: int| 0 <= i < j < after.len() implies (#[trigger] after[i]).name@
            != (#[trigger] after[j]).name@ by {
            assert(after[i].name@ == before[i].name@);
            assert(after[j].name@ == before[j].name@);
        }
    }
    let key = after[position].name@;
    let target = entries_map(before).insert(key, after[position].result@);
    assert forall|name: Seq<char>| entries_map(after).contains_key(name) <==> target.contains_key(
        name,
    ) by {
        if entries_map(after).contains_key(name) {
            let i = choose|i: int| named_at(after, name, i);
            assert(named_at(before, name, i));
        }
        if entries_map(before).contains_key(name) {
            let i = choose|i: int| named_at(before, name, i);
            assert(named_at(after, name, i));
        }
        if name == key {
            assert(named_at(after, name, position));
        }
    }
    assert forall|name: Seq<char>| #[trigger] target.contains_key(name) implies entries_map(
        after,
    )[name] == target[name] by {
        if name == key {
            lemma_entry_at(after, name, position);
        } else {
            let i = choose|i: int| named_at(before, name, i);
            assert(named_at(before, name, i));
            assert(named_at(after, name, i));
            lemma_entry_at(after, name, i);
            lemma_entry_at(before, name, i);
        }
    }
    assert(entries_map(after) =~= target);
}

/// Appending an entry of a new name puts its measurements under that name
/// and leaves the rest.
proof fn lemma_push_entry(before: Seq<ReportEntry>, after: Seq<ReportEntry>)
    requires
        distinct_names(before),
        after.len() == before.len() + 1,
        forall|i: int| 0 <= i < before.len() ==> after[i] == before[i],
        forall|i: int| !named_at(before, after.last().name@, i),
    ensures
        distinct_names(after),
        entries_map(after) == entries_map(before).insert(after.last().name@, after.last().result@),
{
    let position = before.len() as int;
    assert(distinct_names(after)) by {
        assert forall|i: int, j: int| 0 <= i < j < after.len() implies (#[trigger] after[i]).name@
            != (#[trigger] after[j]).name@ by {
            if j == position {
                assert(!named_at(before, after.last().name@, i));
            }
        }
    }
    let key = after.last().name@;
    let target = entries_map(before).insert(key, after.last().result@);
    assert forall|name: Seq<char>| entries_map(after).contains_key(name) <==> target.contains_key(
        name,
    ) by {
        if entries_map(after).contains_key(name) {
            let i = choose|i: int| named_at(after, name, i);
            if i != position {
                assert(named_at(before, name, i));
            }
        }
        if entries_map(before).contains_key(name) {
            let i = choose|i: int| named_at(before, name, i);
            assert(named_at(after, name, i));
        }
        if name == key {
            assert(named_at(after, name, position));
        }
    }
    assert forall|name: Seq<char>| #[trigger] target.contains_key(name) implies entries_map(
        after,
    )[name] == target[name] by {
        if name == key {
            lemma_entry_at(after, name, position);
        } else {
            let i = choose|i: int| named_at(before, name, i);
            assert(named_at(before, name, i));
            assert(named_at(after, name, i));
            lemma_entry_at(after, name, i);
            lemma_entry_at(before, name, i);
        }
    }
    assert(entries_map(after) =~= target);
}

} // verus!
