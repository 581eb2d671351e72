use vstd::prelude::*;

use crate::decimal::{parse_percentage, percentage_of, Fraction};
use crate::text::{chars_of, fields, split_fields, split_lines, text_lines};

verus! {

/// Overall line and branch coverage, as fractions.
#[derive(Clone, Copy, Debug, PartialEq, Eq, Structural)]
pub struct CoverageReport {
    pub line_coverage: Fraction,
    pub branch_coverage: Fraction,
}

/// Why the summary of the coverage tool could not be read.
#[derive(Clone, Copy, Debug, PartialEq, Eq, Structural)]
pub enum ReportError {
    /// No line of the summary holds `TOTAL`.
    NoTotalRow,
    /// The `TOTAL` row has fewer than ten columns.
    MissingColumn,
    /// A coverage column is neither `-` nor a number followed by `%`.
    InvalidPercentage,
}

/// Column of the `TOTAL` row that holds the line coverage.
pub const LINE_COLUMN: usize = 6;

/// Column of the `TOTAL` row that holds the branch coverage.
pub const BRANCH_COLUMN: usize = 9;

pub open spec fn total_word() -> Seq<char> {
    seq!['T', 'O', 'T', 'A', 'L']
}

pub open spec fn contains_total(l: Seq<char>) -> bool {
    exists|k: int| 0 <= k && k + 5 <= l.len() && #[trigger] l.subrange(k, k + 5) == total_word()
}

/// The first of `ls` that holds `TOTAL`.
pub open spec fn first_total_line(ls: Seq<Seq<char>>) -> Option<Seq<char>>
    decreases ls.len(),
{
    if ls.len() == 0 {
        None
    } else if contains_total(ls[0]) {
        Some(ls[0])
    } else {
        first_total_line(ls.skip(1))
    }
}

/// What a `TOTAL` row says: the percentages of its columns 6 and 9 (counted from 0).
pub open spec fn total_row_report(row: Seq<char>) -> Result<CoverageReport, ReportError> {
    let f = fields(row);
    if f.len() < 10 {
        Err(ReportError::MissingColumn)
    } else {
        match (percentage_of(f[6]), percentage_of(f[9])) {
            (Some(l), Some(b)) => Ok(CoverageReport { line_coverage: l, branch_coverage: b }),
            _ => Err(ReportError::InvalidPercentage),
        }
    }
}

/// What the whole summary printed by the coverage tool says.
pub open spec fn report_of(out: Seq<char>) -> Result<CoverageReport, ReportError> {
    match first_total_line(text_lines(out)) {
        None => Err(ReportError::NoTotalRow),
        Some(row) => total_row_report(row),
    }
}

fn has_total(l: &Vec<char>) -> (r: bool)
    ensures
        r == contains_total(l@),
{
    if l.len() < 5 {
        return false;
    }
    let mut k: usize = 0;
    while k <= l.len() - 5
        invariant
            l.len() >= 5,
            k + 5 <= l.len() + 1,
            forall|j: int| 0 <= j < k ==> #[trigger] l@.subrange(j, j + 5) != total_word(),
        decreases l.len() - k,
    {
        if l[k] == 'T' && l[k + 1] == 'O' && l[k + 2] == 'T' && l[k + 3] == 'A' && l[k + 4] == 'L' {
            assert(l@.subrange(k as int, k + 5) =~= total_word());
            return true;
        }
        assert(l@.subrange(k as int, k + 5)[0] == l[k as int]);
        assert(l@.subrange(k as int, k + 5) != total_word()) by {
            let w = l@.subrange(k as int, k + 5);
            assert(w[0] == l[k as int] && w[1] == l[k + 1] && w[2] == l[k + 2] && w[3] == l[k + 3]
                && w[4] == l[k + 4]);
        }
        k = k + 1;
    }
    false
}

/// The first line of the coverage tool's output that holds `TOTAL`.
pub fn find_coverage_line(stdout: &str) -> (r: Option<String>)
    ensures
        match r {
            Some(line) => first_total_line(text_lines(stdout@)) == Some(line@),
            None => first_total_line(text_lines(stdout@)) is None,
        },
{
    let lines = split_lines(stdout);
    let ghost ls = text_lines(stdout@);
    let mut i: usize = 0;
    assert(ls.skip(0) =~= ls);
    while i < lines.len()
        invariant
            i <= lines.len() == ls.len(),
            ls == text_lines(stdout@),
            forall|k: int| 0 <= k < lines.len() ==> #[trigger] lines[k]@ == ls[k],
            first_total_line(ls) == first_total_line(ls.skip(i as int)),
        decreases lines.len() - i,
    {
        let cs = chars_of(lines[i].as_str());
        assert(ls.skip(i as int)[0] == ls[i as int]);
        assert(ls.skip(i as int).skip(1) =~= ls.skip(i + 1));
        if has_total(&cs) {
            let line = lines[i].clone();
            assert(line@ == ls[i as int]);
            assert(cs@ == ls[i as int]);
            assert(ls.skip(i as int).len() > 0);
            assert(first_total_line(ls.skip(i as int)) == Some(ls[i as int]));
            return Some(line);
        }
        i = i + 1;
    }
    assert(ls.skip(i as int).len() == 0);
    None
}

/// Reads the coverage percentages out of a `TOTAL` row.
pub fn parse_total_row(row: &str) -> (r: Result<CoverageReport, ReportError>)
    ensures
        r == total_row_report(row@),
{
    let cs = chars_of(row);
    let parts = split_fields(&cs);
    if parts.len() < 10 {
        return Err(ReportError::MissingColumn);
    }
    let line = parse_percentage(&parts[LINE_COLUMN]);
    let branch = parse_percentage(&parts[BRANCH_COLUMN]);
    match (line, branch) {
        (Some(l), Some(b)) => Ok(CoverageReport { line_coverage: l, branch_coverage: b }),
        _ => Err(ReportError::InvalidPercentage),
    }
}

/// Reads the overall coverage out of the coverage tool's summary.
pub fn parse_report(stdout: &str) -> (r: Result<CoverageReport, ReportError>)
    ensures
        r == report_of(stdout@),
{
    match find_coverage_line(stdout) {
        None => Err(ReportError::NoTotalRow),
        Some(row) => parse_total_row(row.as_str()),
    }
}

/// Only columns 6 and 9 of a `TOTAL` row decide what it reports: two rows of at least
/// ten columns that agree there report the same, whatever their other columns hold.
pub proof fn lemma_row_reads_only_coverage_columns(a: Seq<char>, b: Seq<char>)
    requires
        fields(a).len() >= 10,
        fields(b).len() >= 10,
        fields(a)[6] == fields(b)[6],
        fields(a)[9] == fields(b)[9],
    ensures
        total_row_report(a) == total_row_report(b),
{
}

} // verus!
