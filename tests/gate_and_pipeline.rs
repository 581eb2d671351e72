use covgate::artifacts::{fragments_to_delete, is_fragment_name, reset_plan, DirEntry, DirOp};
use covgate::decimal::Fraction;
use covgate::discover::{get_objects, read_event, DiscoverError};
use covgate::gate::{evaluate, RunConfiguration};
use covgate::pipeline::{join_path, Action, Failure, Pipeline, Stage, StepResult};
use covgate::report::{CoverageReport, ReportError};

fn frac(num: u64, den: u64) -> Fraction {
    Fraction { num, den }
}

fn config(line: Fraction, branch: Fraction) -> RunConfiguration {
    RunConfiguration::new(Some("/proj".to_string()), Some(line), Some(branch))
}

fn report(line: Fraction, branch: Fraction) -> CoverageReport {
    CoverageReport { line_coverage: line, branch_coverage: branch }
}

fn ok(stdout: &str) -> StepResult {
    StepResult { success: true, stdout: stdout.to_string(), stderr: String::new() }
}

#[test]
fn defaults_are_full_coverage() {
    let c = RunConfiguration::new(None, None, None);
    assert_eq!(c.project_dir, ".");
    assert_eq!(c.min_line_coverage, frac(1, 1));
    assert_eq!(c.min_branch_coverage, frac(1, 1));
}

#[test]
fn gate_passes_above_minimums() {
    let g = evaluate(&report(frac(96, 100), frac(9667, 10000)), &config(frac(95, 100), frac(90, 100)));
    assert!(g.passed());
    assert_eq!(g.exit_code(), 0);
}

#[test]
fn gate_fails_on_line_alone() {
    let g = evaluate(&report(frac(96, 100), frac(9667, 10000)), &config(frac(98, 100), frac(90, 100)));
    assert!(!g.passed());
    assert!(!g.line_met);
    assert!(g.branch_met);
    assert_eq!(g.exit_code(), 1);
}

#[test]
fn gate_fails_on_branch_alone() {
    let g = evaluate(&report(frac(1, 1), frac(50, 100)), &config(frac(1, 1), frac(90, 100)));
    assert!(g.line_met);
    assert!(!g.branch_met);
    assert_eq!(g.exit_code(), 1);
}

#[test]
fn gate_reports_both_failures() {
    let g = evaluate(&report(frac(10, 100), frac(20, 100)), &config(frac(50, 100), frac(50, 100)));
    assert!(!g.line_met);
    assert!(!g.branch_met);
    assert!(!g.passed());
}

#[test]
fn gate_equal_values_pass() {
    let g = evaluate(&report(frac(9000, 10000), frac(1, 1)), &config(frac(9, 10), frac(1, 1)));
    assert!(g.passed());
}

#[test]
fn manifest_keeps_test_binaries() {
    let out = "{\"profile\":{\"test\":true},\"filenames\":[\"/tmp/bin_a\"]}\n{\"profile\":{\"test\":false},\"filenames\":[\"/tmp/bin_b\"]}\n";
    assert_eq!(get_objects(out), Ok(vec!["/tmp/bin_a".to_string()]));
}

#[test]
fn manifest_keeps_order_and_all_files() {
    let out = "{\"reason\":\"build-finished\",\"success\":true}\n{\"profile\":{\"test\":true},\"filenames\":[\"/a\",\"/b\"]}\n{\"profile\":{\"test\":true},\"filenames\":[\"/c\"]}";
    assert_eq!(get_objects(out), Ok(vec!["/a".to_string(), "/b".to_string(), "/c".to_string()]));
}

#[test]
fn manifest_errors() {
    assert_eq!(get_objects("not json\n"), Err(DiscoverError::InvalidJson));
    assert_eq!(
        get_objects("{\"profile\":{\"test\":true},\"filenames\":\"/a\"}"),
        Err(DiscoverError::FilenamesNotArray)
    );
    assert_eq!(
        get_objects("{\"profile\":{\"test\":true}}"),
        Err(DiscoverError::FilenamesNotArray)
    );
    assert_eq!(
        get_objects("{\"profile\":{\"test\":true},\"filenames\":[\"/a\", 3]}"),
        Err(DiscoverError::FilenameNotString)
    );
    assert_eq!(get_objects("{\"profile\":{\"test\":false},\"filenames\":3}"), Ok(vec![]));
    assert_eq!(get_objects(""), Ok(vec![]));
}

#[test]
fn event_fields_are_read() {
    let e = read_event(r#"{"profile":{"test":true},"filenames":["/x",1]}"#).unwrap();
    assert_eq!(e.test, Some(true));
    assert_eq!(e.filenames, Some(vec![Some("/x".to_string()), None]));
    let e = read_event(r#"{"profile":"p"}"#).unwrap();
    assert_eq!(e.test, None);
    assert_eq!(e.filenames, None);
    assert!(read_event("{").is_err());
}

#[test]
fn fragment_names() {
    assert!(is_fragment_name("default_123.profraw"));
    assert!(is_fragment_name("default.profraw"));
    assert!(!is_fragment_name("default.profdata"));
    assert!(!is_fragment_name("xdefault_1.profraw"));
    assert!(!is_fragment_name(".profraw"));
    assert!(!is_fragment_name(""));
}

#[test]
fn purge_selects_only_fragment_files() {
    let entries = vec![
        DirEntry { name: "default_1.profraw".to_string(), is_file: true },
        DirEntry { name: "Cargo.toml".to_string(), is_file: true },
        DirEntry { name: "default_dir.profraw".to_string(), is_file: false },
        DirEntry { name: "default_2.profraw".to_string(), is_file: true },
    ];
    let doomed = fragments_to_delete(&entries);
    assert_eq!(doomed, vec!["default_1.profraw".to_string(), "default_2.profraw".to_string()]);
    let left: Vec<&DirEntry> = entries.iter().filter(|e| !doomed.contains(&e.name)).collect();
    assert!(left.iter().all(|e| !(e.is_file && is_fragment_name(&e.name))));
}

#[test]
fn paths_are_joined() {
    assert_eq!(join_path(&"/proj".to_string(), ".profdata"), "/proj/.profdata");
    assert_eq!(join_path(&"/proj/".to_string(), ".profdata"), "/proj/.profdata");
    assert_eq!(join_path(&String::new(), ".profdata"), ".profdata");
}

#[test]
fn pipeline_runs_every_stage_in_order() {
    let mut p = Pipeline::new(config(frac(95, 100), frac(90, 100)));
    match p.start() {
        Action::Run(inv) => {
            assert_eq!(inv.program, "cargo");
            assert_eq!(inv.args, vec!["test".to_string()]);
            assert_eq!(inv.env, vec![("RUSTFLAGS".to_string(), "-C instrument-coverage".to_string())]);
            assert_eq!(inv.dir, "/proj");
        }
        other => panic!("unexpected {:?}", other),
    }
    match p.advance(ok("")) {
        Action::ResetArtifactDir(d) => assert_eq!(d, "/proj/.profdata"),
        other => panic!("unexpected {:?}", other),
    }
    match p.advance(ok("")) {
        Action::Run(inv) => {
            assert_eq!(inv.program, "sh");
            assert_eq!(
                inv.args,
                vec![
                    "-c".to_string(),
                    "rust-profdata merge -sparse default*.profraw -o /proj/.profdata/unittest.profdata".to_string()
                ]
            );
        }
        other => panic!("unexpected {:?}", other),
    }
    match p.advance(ok("")) {
        Action::PurgeFragments(d) => assert_eq!(d, "/proj"),
        other => panic!("unexpected {:?}", other),
    }
    match p.advance(ok("")) {
        Action::Run(inv) => {
            assert_eq!(inv.args, vec!["test", "--no-run", "--message-format=json"]);
            assert_eq!(inv.env, vec![("RUSTFLAGS".to_string(), "-C instrument-coverage".to_string())]);
        }
        other => panic!("unexpected {:?}", other),
    }
    match p.advance(ok("{\"profile\":{\"test\":true},\"filenames\":[\"/tmp/bin_a\"]}\n")) {
        Action::Run(inv) => {
            assert_eq!(inv.program, "rust-cov");
            assert_eq!(
                inv.args,
                vec![
                    "report",
                    "--use-color",
                    "--show-region-summary=false",
                    "--ignore-filename-regex='/.cargo/registry'",
                    "-instr-profile",
                    ".profdata/unittest.profdata",
                    "--object",
                    "/tmp/bin_a"
                ]
            );
            assert!(inv.echo_output);
        }
        other => panic!("unexpected {:?}", other),
    }
    match p.advance(ok("TOTAL 100 0 100.00% 50 2 96.00% 30 1 96.67%\n")) {
        Action::Finish(rep, g) => {
            assert_eq!(rep, report(frac(9600, 10000), frac(9667, 10000)));
            assert!(g.passed());
        }
        other => panic!("unexpected {:?}", other),
    }
    assert_eq!(p.stage, Stage::Done);
}

#[test]
fn failed_command_aborts_before_verdict() {
    let mut p = Pipeline::new(config(frac(1, 1), frac(1, 1)));
    let failed = StepResult { success: false, stdout: "out".to_string(), stderr: "boom".to_string() };
    match p.advance(failed) {
        Action::Abort(Failure::Step { stage, stdout, stderr }) => {
            assert_eq!(stage, Stage::RunTests);
            assert_eq!(stdout, "out");
            assert_eq!(stderr, "boom");
        }
        other => panic!("unexpected {:?}", other),
    }
    assert_eq!(p.stage, Stage::Done);
}

#[test]
fn failed_report_command_aborts() {
    let mut p = Pipeline::new(config(frac(1, 1), frac(1, 1)));
    for _ in 0..5 {
        let a = p.advance(ok(""));
        assert!(!matches!(a, Action::Abort(_) | Action::Finish(..)));
    }
    assert_eq!(p.stage, Stage::Report);
    let a = p.advance(StepResult { success: false, stdout: String::new(), stderr: "x".to_string() });
    assert!(matches!(a, Action::Abort(Failure::Step { stage: Stage::Report, .. })));
}

#[test]
fn unreadable_summary_aborts() {
    let mut p = Pipeline::new(config(frac(1, 1), frac(1, 1)));
    for _ in 0..5 {
        p.advance(ok(""));
    }
    let a = p.advance(ok("no totals"));
    assert!(matches!(a, Action::Abort(Failure::Report(ReportError::NoTotalRow))));
}

#[test]
fn bad_build_output_aborts() {
    let mut p = Pipeline::new(config(frac(1, 1), frac(1, 1)));
    for _ in 0..4 {
        p.advance(ok(""));
    }
    let a = p.advance(ok("garbage"));
    assert!(matches!(a, Action::Abort(Failure::Discovery(DiscoverError::InvalidJson))));
    assert_eq!(p.stage, Stage::Done);
}

#[test]
fn reset_removes_then_creates() {
    assert_eq!(reset_plan(true), vec![DirOp::RemoveAll, DirOp::Create]);
    assert_eq!(reset_plan(false), vec![DirOp::Create]);
}

#[test]
fn manifest_skips_non_test_lines() {
    let base = "{\"profile\":{\"test\":true},\"filenames\":[\"/a\"]}\n";
    let with_other = "{\"profile\":{\"test\":true},\"filenames\":[\"/a\"]}\n{\"profile\":{\"test\":\"yes\"}}\n{\"reason\":\"x\"}\n";
    assert_eq!(get_objects(base), get_objects(with_other));
}

#[test]
fn first_bad_line_decides_the_error() {
    let out = "{\"profile\":{\"test\":true},\"filenames\":3}\nnot json\n";
    assert_eq!(get_objects(out), Err(DiscoverError::FilenamesNotArray));
    let out = "warning: x\n{\"profile\":{\"test\":true},\"filenames\":3}\n";
    assert_eq!(get_objects(out), Err(DiscoverError::InvalidJson));
    assert_eq!(get_objects("{}\n\n"), Err(DiscoverError::InvalidJson));
}
