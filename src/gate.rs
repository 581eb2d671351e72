use vstd::prelude::*;

use crate::decimal::Fraction;
use crate::report::CoverageReport;

verus! {

/// What a run is asked to do: where the project is, and the coverage it must reach.
#[derive(Debug)]
pub struct RunConfiguration {
    pub project_dir: String,
    pub min_line_coverage: Fraction,
    pub min_branch_coverage: Fraction,
}

/// A minimum, where one is given, has a positive denominator.
pub open spec fn minimum_ok(m: Option<Fraction>) -> bool {
    match m {
        Some(f) => f.wf(),
        None => true,
    }
}

impl RunConfiguration {
    pub open spec fn wf(&self) -> bool {
        self.min_line_coverage.wf() && self.min_branch_coverage.wf()
    }

    /// Applies the defaults: the current directory, and 100% for each minimum.
    pub fn new(
        project_dir: Option<String>,
        min_line_coverage: Option<Fraction>,
        min_branch_coverage: Option<Fraction>,
    ) -> (r: RunConfiguration)
        requires
            minimum_ok(min_line_coverage),
            minimum_ok(min_branch_coverage),
        ensures
            r.wf(),
            r.project_dir@ == match project_dir {
                Some(d) => d@,
                None => seq!['.'],
            },
            r.min_line_coverage == match min_line_coverage {
                Some(f) => f,
                None => Fraction { num: 1, den: 1 },
            },
            r.min_branch_coverage == match min_branch_coverage {
                Some(f) => f,
                None => Fraction { num: 1, den: 1 },
            },
    {
        let dir = match project_dir {
            Some(d) => d,
            None => {
                proof {
                    reveal_strlit(".");
                }
                String::from_str(".")
            },
        };
        let line = match min_line_coverage {
            Some(f) => f,
            None => Fraction::one(),
        };
        let branch = match min_branch_coverage {
            Some(f) => f,
            None => Fraction::one(),
        };
        RunConfiguration { project_dir: dir, min_line_coverage: line, min_branch_coverage: branch }
    }
}

/// The verdict on a report: whether each minimum was met.
#[derive(Clone, Copy, Debug, PartialEq, Eq, Structural)]
pub struct GateOutcome {
    pub line_met: bool,
    pub branch_met: bool,
}

impl GateOutcome {
    pub open spec fn spec_passed(self) -> bool {
        self.line_met && self.branch_met
    }

    pub fn passed(&self) -> (r: bool)
        ensures
            r == self.spec_passed(),
    {
        self.line_met && self.branch_met
    }

    /// The process exit code: 0 when every minimum was met, else 1.
    pub fn exit_code(&self) -> (r: i32)
        ensures
            r == if self.spec_passed() { 0i32 } else { 1i32 },
    {
        if self.passed() {
            0
        } else {
            1
        }
    }
}

/// Each minimum is checked on its own.
pub open spec fn gate(report: CoverageReport, min_line: Fraction, min_branch: Fraction) -> GateOutcome {
    GateOutcome {
        line_met: !report.line_coverage.below(min_line),
        branch_met: !report.branch_coverage.below(min_branch),
    }
}

/// Compares the coverage found with the minimums asked for.
pub fn evaluate(report: &CoverageReport, config: &RunConfiguration) -> (r: GateOutcome)
    ensures
        r == gate(*report, config.min_line_coverage, config.min_branch_coverage),
{
    let line_met = !report.line_coverage.is_below(&config.min_line_coverage);
    let branch_met = !report.branch_coverage.is_below(&config.min_branch_coverage);
    GateOutcome { line_met, branch_met }
}

/// A verdict fails exactly when the line coverage or the branch coverage is below its
/// minimum; each verdict depends on its own coverage and minimum alone, so which check
/// comes first cannot matter.
pub proof fn lemma_gate_fails_iff_below(
    report: CoverageReport,
    other: CoverageReport,
    min_line: Fraction,
    min_branch: Fraction,
)
    ensures
        !gate(report, min_line, min_branch).spec_passed() <==> (report.line_coverage.below(min_line)
            || report.branch_coverage.below(min_branch)),
        report.line_coverage == other.line_coverage ==> gate(report, min_line, min_branch).line_met
            == gate(other, min_line, min_branch).line_met,
        report.branch_coverage == other.branch_coverage ==> gate(
            report,
            min_line,
            min_branch,
        ).branch_met == gate(other, min_line, min_branch).branch_met,
{
}

} // verus!
