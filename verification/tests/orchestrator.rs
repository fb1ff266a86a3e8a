use hashbench::benchmark::{Benchmark, BenchmarkResult, WorkerOutcome};
use hashbench::cpuinfo::CpuInfo;
use hashbench::error::{BenchError, HashError};
use hashbench::hashers::Preset;
use hashbench::runner::{Next, TrialRun};
use hashbench::worklist::{Assignment, Worklist};

fn cpu() -> CpuInfo {
    CpuInfo::new("Test CPU".to_string(), 3200)
}

fn work(assignment: Assignment, repeats: u16, stub: &dyn Fn(Preset) -> Result<u128, HashError>) -> WorkerOutcome {
    let mut next = TrialRun::begin(assignment.preset, repeats, assignment.line).next;
    loop {
        match next {
            Next::Measure(run) => next = run.step(stub(assignment.preset)).next,
            ended => {
                return ended
                    .into_outcome(assignment.preset)
                    .expect("the run has ended");
            }
        }
    }
}

fn run_all(selector: Option<String>, repeats: u16, stub: &dyn Fn(Preset) -> Result<u128, HashError>) -> Result<Benchmark, BenchError> {
    let worklist = Worklist::resolve(selector)?;
    let outcomes: Vec<WorkerOutcome> = worklist
        .assignments()
        .into_iter()
        .map(|assignment| work(assignment, repeats, stub))
        .collect();
    let mut report = Benchmark::new(cpu());
    report.collect(outcomes);
    Ok(report)
}

#[test]
fn worklist_without_selector_holds_every_preset() {
    let worklist = Worklist::resolve(None).expect("the registry is not empty");
    assert_eq!(worklist.len(), 7);
    let presets: Vec<Preset> = worklist.assignments().iter().map(|a| a.preset).collect();
    assert_eq!(presets, Preset::variants());
    let all = Worklist::all().expect("the registry is not empty");
    assert_eq!(all.assignments(), worklist.assignments());
}

#[test]
fn worklist_with_selector_holds_that_preset() {
    let worklist = Worklist::resolve(Some("bcrypt12".to_string())).expect("a known preset");
    assert_eq!(
        worklist.assignments(),
        vec![Assignment { preset: Preset::Bcrypt12, line: 1 }]
    );
}

#[test]
fn unknown_selector_is_preset_not_found() {
    let error = Worklist::resolve(Some("nonexistent".to_string())).expect_err("no such preset");
    assert!(matches!(error, BenchError::PresetNotFound(ref name) if name == "nonexistent"));
    assert_eq!(error.message(), "Preset not found: nonexistent");
    let report = run_all(Some("nonexistent".to_string()), 3, &|_| Ok(10));
    assert!(matches!(report, Err(BenchError::PresetNotFound(_))));
}

#[test]
fn empty_worklist_is_refused() {
    let error = Worklist::new(Vec::new()).expect_err("nothing selected");
    assert!(matches!(error, BenchError::EmptyWorklist));
    assert_eq!(error.message(), "No valid presets found, aborting benchmark.");
}

#[test]
fn rows_are_worklist_positions_from_one() {
    let worklist = Worklist::resolve(None).expect("the registry is not empty");
    let lines: Vec<u16> = worklist.assignments().iter().map(|a| a.line).collect();
    assert_eq!(lines, vec![1, 2, 3, 4, 5, 6, 7]);
}

#[test]
fn distinct_presets_get_distinct_rows() {
    let worklist = Worklist::new(vec![Preset::Bcrypt10, Preset::Argon2idFast]).expect("two presets");
    assert_eq!(
        worklist.assignments(),
        vec![
            Assignment { preset: Preset::Bcrypt10, line: 1 },
            Assignment { preset: Preset::Argon2idFast, line: 2 },
        ]
    );
    let all = Worklist::resolve(None).expect("the registry is not empty").assignments();
    for (i, a) in all.iter().enumerate() {
        for (j, b) in all.iter().enumerate() {
            assert_eq!(i == j, a.line == b.line);
            assert_eq!(i == j, a.preset == b.preset);
        }
    }
}

#[test]
fn two_presets_three_trials_of_ten_milliseconds() {
    let worklist = Worklist::new(vec![Preset::Bcrypt10, Preset::Argon2idFast]).expect("two presets");
    let outcomes: Vec<WorkerOutcome> = worklist
        .assignments()
        .into_iter()
        .map(|assignment| work(assignment, 3, &|_| Ok(10)))
        .collect();
    let mut report = Benchmark::new(cpu());
    report.collect(outcomes);
    assert_eq!(report.len(), 2);
    for name in ["Bcrypt10", "Argon2idFast"] {
        let result = report.get(&name.to_string()).expect("a result for each preset");
        assert_eq!(result.iterations.len(), 3);
        assert_eq!(result.iterations, vec![10, 10, 10]);
        assert_eq!(result.average, 10);
    }
    assert!(report.get(&"Bcrypt12".to_string()).is_none());
    assert_eq!(report.cpu.name, "Test CPU");
    assert_eq!(report.cpu.frequency, 3200);
}

#[test]
fn failing_preset_is_omitted_and_no_other() {
    let stub = |preset: Preset| -> Result<u128, HashError> {
        if preset == Preset::Bcrypt14 {
            Err(HashError::Bcrypt("stub failure".to_string()))
        } else {
            Ok(5)
        }
    };
    let report = run_all(None, 1, &stub).expect("the run goes on");
    assert_eq!(report.len(), 6);
    for preset in Preset::variants() {
        let entry = report.get(&preset.name().to_string());
        if preset == Preset::Bcrypt14 {
            assert!(entry.is_none());
        } else {
            let result = entry.expect("a result for every other preset");
            assert_eq!(result.iterations, vec![5]);
            assert_eq!(result.average, 5);
        }
    }
}

#[test]
fn preset_that_fails_midway_has_no_result() {
    let calls = std::cell::Cell::new(0u32);
    let stub = |preset: Preset| -> Result<u128, HashError> {
        if preset == Preset::Argon2i {
            calls.set(calls.get() + 1);
            if calls.get() == 3 {
                return Err(HashError::Hashing("stub failure".to_string()));
            }
        }
        Ok(2)
    };
    let report = run_all(None, 4, &stub).expect("the run goes on");
    assert_eq!(report.len(), 6);
    assert!(report.get(&"Argon2i".to_string()).is_none());
    assert_eq!(
        report.get(&"Argon2d".to_string()).expect("unaffected").iterations,
        vec![2, 2, 2, 2]
    );
}

#[test]
fn all_presets_failing_gives_an_empty_report() {
    let report = run_all(None, 2, &|_| Err(HashError::Salt("stub".to_string())))
        .expect("the run goes on");
    assert_eq!(report.len(), 0);
}

#[test]
fn report_entries_are_keyed_by_display_name() {
    let report = run_all(None, 1, &|_| Ok(1)).expect("the run goes on");
    let names: Vec<String> = report.results.iter().map(|entry| entry.name.clone()).collect();
    assert_eq!(names, Preset::to_vec());
    for name in names {
        assert!(Preset::from_str(&name).is_some());
    }
    assert!(report.get(&"bcrypt10".to_string()).is_none());
}

#[test]
fn insert_replaces_what_stood_under_the_name() {
    let mut report = Benchmark::new(cpu());
    let mut first = BenchmarkResult::new();
    first.add_iteration(4);
    let mut second = BenchmarkResult::new();
    second.add_iteration(9);
    second.add_iteration(11);
    report.insert("Bcrypt10".to_string(), first);
    report.insert("Argon2i".to_string(), BenchmarkResult::new());
    report.insert("Bcrypt10".to_string(), second);
    assert_eq!(report.len(), 2);
    let kept = report.get(&"Bcrypt10".to_string()).expect("the later result");
    assert_eq!(kept.iterations, vec![9, 11]);
    assert_eq!(kept.average, 10);
    assert!(report.get(&"Argon2i".to_string()).expect("untouched").iterations.is_empty());
}

#[test]
fn record_skips_a_worker_without_measurements() {
    let mut report = Benchmark::new(cpu());
    report.record(WorkerOutcome {
        preset: Preset::Bcrypt12,
        result: Err(BenchError::HashComputationFailed {
            preset: Preset::Bcrypt12,
            cause: HashError::Bcrypt("stub".to_string()),
        }),
    });
    assert_eq!(report.len(), 0);
    let mut result = BenchmarkResult::new();
    result.add_iteration(3);
    report.record(WorkerOutcome { preset: Preset::Bcrypt12, result: Ok(result) });
    assert_eq!(report.len(), 1);
    assert_eq!(report.results[0].name, "Bcrypt12");
}

#[test]
fn report_file_is_named_by_epoch_seconds() {
    assert_eq!(Benchmark::file_name(1_700_000_000), "bench_1700000000.json");
    assert_eq!(Benchmark::file_name(0), "bench_0.json");
    assert_eq!(
        Benchmark::file_name(u64::MAX),
        format!("bench_{}.json", u64::MAX)
    );
}

#[test]
fn artifact_name_is_a_report_file_name() {
    let name = Benchmark::artifact_name().expect("the clock stands after the epoch");
    assert!(name.starts_with("bench_"));
    assert!(name.ends_with(".json"));
    let digits = &name["bench_".len()..name.len() - ".json".len()];
    let seconds: u64 = digits.parse().expect("decimal seconds");
    assert!(seconds > 1_600_000_000);
    assert_eq!(Benchmark::file_name(seconds), name);
}

#[test]
fn messages_for_the_operator() {
    assert_eq!(
        Benchmark::saved_message("bench_17.json"),
        "Benchmark results saved to `bench_17.json`"
    );
    assert_eq!(
        BenchError::ReportPersistenceFailed("disk full".to_string()).message(),
        "Failed to save benchmark results: disk full"
    );
    assert_eq!(
        BenchError::HashComputationFailed {
            preset: Preset::Argon2d,
            cause: HashError::Hashing("password is too long".to_string()),
        }
        .message(),
        "Failed to hash: Hashing error: password is too long"
    );
    assert_eq!(
        HashError::InvalidParams("memory cost is too small".to_string()).message(),
        "Invalid Argon2 params: memory cost is too small"
    );
    assert_eq!(HashError::Salt("unavailable".to_string()).message(), "Salt error: unavailable");
    assert_eq!(HashError::Bcrypt("bad cost".to_string()).message(), "bad cost");
}

#[test]
fn cpu_snapshot_is_the_first_core() {
    assert!(CpuInfo::first_of(Vec::new()).is_none());
    let cores = vec![
        CpuInfo::new("Core A".to_string(), 2400),
        CpuInfo::new("Core B".to_string(), 1800),
    ];
    let first = CpuInfo::first_of(cores).expect("a machine with cores");
    assert_eq!(first.name, "Core A");
    assert_eq!(first.frequency, 2400);
}

#[test]
fn start_with_unknown_preset_runs_nothing_and_keeps_the_report() {
    let mut report = Benchmark::new(cpu());
    let mut earlier = BenchmarkResult::new();
    earlier.add_iteration(12);
    report.insert("Bcrypt10".to_string(), earlier);
    let error = report.start(3, Some("nonexistent".to_string())).expect_err("no such preset");
    assert!(matches!(error, BenchError::PresetNotFound(ref name) if name == "nonexistent"));
    assert_eq!(report.len(), 1);
    assert_eq!(report.results[0].name, "Bcrypt10");
    assert_eq!(report.results[0].result.iterations, vec![12]);
}

#[test]
fn start_without_trials_reports_every_preset_empty() {
    let mut report = Benchmark::new(cpu());
    let writes = report.start(0, None).expect("the registry is not empty");
    assert_eq!(report.len(), 7);
    for preset in Preset::variants() {
        let result = report.get(&preset.name().to_string()).expect("an entry for each preset");
        assert_eq!(result.average, 0);
        assert!(result.iterations.is_empty());
    }
    let rows: Vec<u16> = writes.iter().map(|write| write.row).collect();
    assert_eq!(rows, vec![1, 2, 3, 4, 5, 6, 7]);
    for write in &writes {
        assert_eq!(write.plain_text(), "\u{2714}\n");
    }
}

#[test]
fn start_with_one_preset_measures_it_on_the_first_row() {
    let mut report = Benchmark::new(cpu());
    let writes = report.start(2, Some("BCRYPT10".to_string())).expect("a known preset");
    assert_eq!(report.len(), 1);
    let result = report.get(&"Bcrypt10".to_string()).expect("the preset's result");
    assert_eq!(result.iterations.len(), 2);
    let sum: u128 = result.iterations.iter().sum();
    assert_eq!(result.average, sum / 2);
    assert_eq!(writes.len(), 3);
    for write in &writes {
        assert_eq!(write.row, 1);
    }
    assert_eq!(report.cpu.name, "Test CPU");
}

#[test]
fn start_without_trials_for_one_preset_reports_it_empty() {
    let mut report = Benchmark::new(cpu());
    let writes = report.start(0, Some("bcrypt10".to_string())).expect("a known preset");
    assert_eq!(report.len(), 1);
    assert_eq!(report.results[0].name, "Bcrypt10");
    assert_eq!(report.results[0].result.average, 0);
    assert!(report.results[0].result.iterations.is_empty());
    assert!(report.get(&"bcrypt10".to_string()).is_none());
    assert_eq!(writes.len(), 1);
    assert_eq!(writes[0].row, 1);
    assert_eq!(writes[0].column, 0);
}
