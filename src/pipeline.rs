use vstd::prelude::*;

use crate::discover::{get_objects, manifest_of, string_views, DiscoverError};
use crate::gate::{evaluate, gate, GateOutcome, RunConfiguration};
use crate::report::{parse_report, report_of, CoverageReport, ReportError};
use crate::text::{chars_of, text_lines};

verus! {

/// The stages of a run, in the order they come.
#[derive(Clone, Copy, Debug, PartialEq, Eq, Structural)]
pub enum Stage {
    RunTests,
    ResetArtifacts,
    Merge,
    PurgeFragments,
    Discover,
    Report,
    Done,
}

/// An external command to run and wait for.
#[derive(Debug)]
pub struct Invocation {
    pub program: String,
    pub args: Vec<String>,
    /// Variables set in the command's environment.
    pub env: Vec<(String, String)>,
    /// The working directory.
    pub dir: String,
    /// Whether the captured output is shown once the command has succeeded.
    pub echo_output: bool,
}

/// How the last action went, with what it printed.
#[derive(Debug)]
pub struct StepResult {
    pub success: bool,
    pub stdout: String,
    pub stderr: String,
}

/// Why a run stopped before its verdict.
#[derive(Debug)]
pub enum Failure {
    /// A command exited unsuccessfully, or a file operation failed.
    Step { stage: Stage, stdout: String, stderr: String },
    Discovery(DiscoverError),
    Report(ReportError),
}

/// What the driver of the pipeline does next.
#[derive(Debug)]
pub enum Action {
    Run(Invocation),
    /// Remove this directory with all it holds if it exists, then create it empty.
    ResetArtifactDir(String),
    /// Delete the raw profile fragments directly in this directory.
    PurgeFragments(String),
    Abort(Failure),
    Finish(CoverageReport, GateOutcome),
}

pub open spec fn env_views(e: Seq<(String, String)>) -> Seq<(Seq<char>, Seq<char>)> {
    e.map_values(|p: (String, String)| (p.0@, p.1@))
}

/// The environment that turns on coverage instrumentation; the test run and the discovery
/// of the test binaries both build with it.
pub open spec fn instrumentation_env() -> Seq<(Seq<char>, Seq<char>)> {
    seq![("RUSTFLAGS"@, "-C instrument-coverage"@)]
}

/// `rel` under the directory `dir`, as `PathBuf::push` joins a relative path.
pub open spec fn joined(dir: Seq<char>, rel: Seq<char>) -> Seq<char> {
    if dir.len() == 0 || dir.last() == '/' {
        dir + rel
    } else {
        dir + seq!['/'] + rel
    }
}

pub open spec fn artifact_dir_name() -> Seq<char> {
    ".profdata"@
}

pub open spec fn profile_path() -> Seq<char> {
    ".profdata/unittest.profdata"@
}

pub open spec fn merge_command(dir: Seq<char>) -> Seq<char> {
    "rust-profdata merge -sparse default*.profraw -o "@ + joined(dir, profile_path())
}

pub open spec fn object_args(objects: Seq<Seq<char>>) -> Seq<Seq<char>>
    decreases objects.len(),
{
    if objects.len() == 0 {
        seq![]
    } else {
        object_args(objects.drop_last()) + seq!["--object"@, objects.last()]
    }
}

pub open spec fn report_args(objects: Seq<Seq<char>>) -> Seq<Seq<char>> {
    seq![
        "report"@,
        "--use-color"@,
        "--show-region-summary=false"@,
        "--ignore-filename-regex='/.cargo/registry'"@,
        "-instr-profile"@,
        profile_path(),
    ] + object_args(objects)
}

pub open spec fn runs(
    inv: Invocation,
    program: Seq<char>,
    args: Seq<Seq<char>>,
    env: Seq<(Seq<char>, Seq<char>)>,
    dir: Seq<char>,
    echo: bool,
) -> bool {
    &&& inv.program@ == program
    &&& string_views(inv.args@) == args
    &&& env_views(inv.env@) == env
    &&& inv.dir@ == dir
    &&& inv.echo_output == echo
}

pub open spec fn is_test_run(inv: Invocation, dir: Seq<char>) -> bool {
    runs(inv, "cargo"@, seq!["test"@], instrumentation_env(), dir, false)
}

pub open spec fn is_merge_run(inv: Invocation, dir: Seq<char>) -> bool {
    runs(inv, "sh"@, seq!["-c"@, merge_command(dir)], seq![], dir, false)
}

pub open spec fn is_discover_run(inv: Invocation, dir: Seq<char>) -> bool {
    runs(
        inv,
        "cargo"@,
        seq!["test"@, "--no-run"@, "--message-format=json"@],
        instrumentation_env(),
        dir,
        false,
    )
}

pub open spec fn is_report_run(inv: Invocation, dir: Seq<char>, objects: Seq<Seq<char>>) -> bool {
    runs(inv, "rust-cov"@, report_args(objects), seq![], dir, true)
}

/// The test run and the discovery of the test binaries build with the same
/// instrumentation environment, so the merged profile and the binaries belong together.
pub proof fn lemma_same_instrumentation(test: Invocation, discover: Invocation, dir: Seq<char>)
    requires
        is_test_run(test, dir),
        is_discover_run(discover, dir),
    ensures
        env_views(test.env@) == env_views(discover.env@),
        env_views(test.env@) == instrumentation_env(),
{
}

/// `rel` under the directory `dir`.
pub fn join_path(dir: &String, rel: &str) -> (r: String)
    ensures
        r@ == joined(dir@, rel@),
{
    let cs = chars_of(dir.as_str());
    let mut out = String::from_str(dir.as_str());
    if !(cs.len() == 0 || cs[cs.len() - 1] == '/') {
        proof {
            reveal_strlit("/");
        }
        out.append("/");
    }
    out.append(rel);
    out
}

fn instrumentation() -> (r: Vec<(String, String)>)
    ensures
        env_views(r@) == instrumentation_env(),
{
    let mut env: Vec<(String, String)> = Vec::new();
    env.push((String::from_str("RUSTFLAGS"), String::from_str("-C instrument-coverage")));
    assert(env_views(env@) =~= instrumentation_env());
    env
}

/// Runs the whole test suite with instrumentation.
pub fn test_invocation(dir: &String) -> (r: Invocation)
    ensures
        is_test_run(r, dir@),
{
    let mut args: Vec<String> = Vec::new();
    args.push(String::from_str("test"));
    assert(string_views(args@) =~= seq!["test"@]);
    Invocation {
        program: String::from_str("cargo"),
        args,
        env: instrumentation(),
        dir: String::from_str(dir.as_str()),
        echo_output: false,
    }
}

/// Merges the raw fragments into the merged profile.
pub fn merge_invocation(dir: &String) -> (r: Invocation)
    ensures
        is_merge_run(r, dir@),
{
    let target = join_path(dir, ".profdata/unittest.profdata");
    let command = String::from_str("rust-profdata merge -sparse default*.profraw -o ").concat(
        target.as_str(),
    );
    let mut args: Vec<String> = Vec::new();
    args.push(String::from_str("-c"));
    args.push(command);
    assert(string_views(args@) =~= seq!["-c"@, merge_command(dir@)]);
    let env: Vec<(String, String)> = Vec::new();
    assert(env_views(env@) =~= seq![]);
    Invocation {
        program: String::from_str("sh"),
        args,
        env,
        dir: String::from_str(dir.as_str()),
        echo_output: false,
    }
}

/// Builds the tests without running them, printing build events as JSON.
pub fn discover_invocation(dir: &String) -> (r: Invocation)
    ensures
        is_discover_run(r, dir@),
{
    let mut args: Vec<String> = Vec::new();
    args.push(String::from_str("test"));
    args.push(String::from_str("--no-run"));
    args.push(String::from_str("--message-format=json"));
    assert(string_views(args@) =~= seq!["test"@, "--no-run"@, "--message-format=json"@]);
    Invocation {
        program: String::from_str("cargo"),
        args,
        env: instrumentation(),
        dir: String::from_str(dir.as_str()),
        echo_output: false,
    }
}

/// Summarises the merged profile over the given test binaries.
pub fn report_invocation(dir: &String, objects: &Vec<String>) -> (r: Invocation)
    ensures
        is_report_run(r, dir@, string_views(objects@)),
{
    let mut args: Vec<String> = Vec::new();
    args.push(String::from_str("report"));
    args.push(String::from_str("--use-color"));
    args.push(String::from_str("--show-region-summary=false"));
    args.push(String::from_str("--ignore-filename-regex='/.cargo/registry'"));
    args.push(String::from_str("-instr-profile"));
    args.push(String::from_str(".profdata/unittest.profdata"));
    let ghost fixed = string_views(args@);
    assert(fixed =~= report_args(seq![]));
    let mut i: usize = 0;
    while i < objects.len()
        invariant
            i <= objects.len(),
            fixed == report_args(seq![]),
            string_views(args@) == fixed + object_args(string_views(objects@).take(i as int)),
        decreases objects.len() - i,
    {
        let ghost before = args@;
        args.push(String::from_str("--object"));
        args.push(objects[i].clone());
        let ghost taken = string_views(objects@).take(i + 1);
        assert(taken.drop_last() =~= string_views(objects@).take(i as int));
        assert(string_views(args@) =~= string_views(before) + seq!["--object"@, objects[i as int]@]);
        i = i + 1;
    }
    assert(string_views(objects@).take(objects.len() as int) =~= string_views(objects@));
    let env: Vec<(String, String)> = Vec::new();
    assert(env_views(env@) =~= seq![]);
    Invocation {
        program: String::from_str("rust-cov"),
        args,
        env,
        dir: String::from_str(dir.as_str()),
        echo_output: true,
    }
}

/// The decisions of a run: which action comes next, given how the last one went.
#[derive(Debug)]
pub struct Pipeline {
    pub config: RunConfiguration,
    pub stage: Stage,
    /// The test binaries found by the discovery stage.
    pub objects: Vec<String>,
}

pub open spec fn is_step_failure(a: Action, stage: Stage, result: StepResult) -> bool {
    match a {
        Action::Abort(Failure::Step { stage: s, stdout, stderr }) => s == stage && stdout@
            == result.stdout@ && stderr@ == result.stderr@,
        _ => false,
    }
}

pub open spec fn invocation_of(a: Action) -> Option<Invocation> {
    match a {
        Action::Run(inv) => Some(inv),
        _ => None,
    }
}

pub open spec fn resets_dir(a: Action, dir: Seq<char>) -> bool {
    match a {
        Action::ResetArtifactDir(d) => d@ == dir,
        _ => false,
    }
}

pub open spec fn purges_dir(a: Action, dir: Seq<char>) -> bool {
    match a {
        Action::PurgeFragments(d) => d@ == dir,
        _ => false,
    }
}

impl Pipeline {
    pub fn new(config: RunConfiguration) -> (r: Pipeline)
        ensures
            r.config == config,
            r.stage == Stage::RunTests,
            r.objects@.len() == 0,
    {
        Pipeline { config, stage: Stage::RunTests, objects: Vec::new() }
    }

    /// The first action of a run: the instrumented test run.
    pub fn start(&self) -> (r: Action)
        ensures
            invocation_of(r) is Some,
            is_test_run(invocation_of(r)->0, self.config.project_dir@),
    {
        Action::Run(test_invocation(&self.config.project_dir))
    }

    /// Takes how the last action went and gives the next one. A failed step ends the run
    /// before any verdict; only a successful coverage report reaches one.
    pub fn advance(&mut self, result: StepResult) -> (r: Action)
        requires
            old(self).stage != Stage::Done,
        ensures
            final(self).config == old(self).config,
            !result.success ==> final(self).stage == Stage::Done && is_step_failure(
                r,
                old(self).stage,
                result,
            ),
            r is Finish ==> result.success && old(self).stage == Stage::Report,
            result.success ==> match old(self).stage {
                Stage::RunTests => final(self).stage == Stage::ResetArtifacts && resets_dir(
                    r,
                    joined(old(self).config.project_dir@, artifact_dir_name()),
                ),
                Stage::ResetArtifacts => final(self).stage == Stage::Merge && invocation_of(r) is Some
                    && is_merge_run(invocation_of(r)->0, old(self).config.project_dir@),
                Stage::Merge => final(self).stage == Stage::PurgeFragments && purges_dir(
                    r,
                    old(self).config.project_dir@,
                ),
                Stage::PurgeFragments => final(self).stage == Stage::Discover && invocation_of(r) is Some
                    && is_discover_run(invocation_of(r)->0, old(self).config.project_dir@),
                Stage::Discover => match manifest_of(text_lines(result.stdout@)) {
                    Ok(o) => final(self).stage == Stage::Report && string_views(final(self).objects@) == o
                        && invocation_of(r) is Some && is_report_run(
                        invocation_of(r)->0,
                        old(self).config.project_dir@,
                        o,
                    ),
                    Err(e) => final(self).stage == Stage::Done && r == Action::Abort(
                        Failure::Discovery(e),
                    ),
                },
                Stage::Report => final(self).stage == Stage::Done && match report_of(result.stdout@) {
                    Ok(rep) => r == Action::Finish(
                        rep,
                        gate(
                            rep,
                            old(self).config.min_line_coverage,
                            old(self).config.min_branch_coverage,
                        ),
                    ),
                    Err(e) => r == Action::Abort(Failure::Report(e)),
                },
                Stage::Done => false,
            },
    {
        let stage = self.stage;
        if !result.success {
            self.stage = Stage::Done;
            return Action::Abort(Failure::Step { stage, stdout: result.stdout, stderr: result.stderr });
        }
        match stage {
            Stage::RunTests => {
                self.stage = Stage::ResetArtifacts;
                Action::ResetArtifactDir(join_path(&self.config.project_dir, ".profdata"))
            },
            Stage::ResetArtifacts => {
                self.stage = Stage::Merge;
                Action::Run(merge_invocation(&self.config.project_dir))
            },
            Stage::Merge => {
                self.stage = Stage::PurgeFragments;
                Action::PurgeFragments(String::from_str(self.config.project_dir.as_str()))
            },
            Stage::PurgeFragments => {
                self.stage = Stage::Discover;
                Action::Run(discover_invocation(&self.config.project_dir))
            },
            Stage::Discover => {
                match get_objects(result.stdout.as_str()) {
                    Ok(objects) => {
                        let inv = report_invocation(&self.config.project_dir, &objects);
                        self.objects = objects;
                        self.stage = Stage::Report;
                        Action::Run(inv)
                    },
                    Err(e) => {
                        self.stage = Stage::Done;
                        Action::Abort(Failure::Discovery(e))
                    },
                }
            },
            _ => {
                self.stage = Stage::Done;
                match parse_report(result.stdout.as_str()) {
                    Ok(rep) => {
                        let verdict = evaluate(&rep, &self.config);
                        Action::Finish(rep, verdict)
                    },
                    Err(e) => Action::Abort(Failure::Report(e)),
                }
            },
        }
    }
}

} // verus!
