use covgate::decimal::{coverage_pct_from_str, parse_fraction, Fraction};
use covgate::report::{find_coverage_line, parse_report, parse_total_row, CoverageReport, ReportError};
use covgate::text::{split_fields, split_lines};

fn frac(num: u64, den: u64) -> Fraction {
    Fraction { num, den }
}

fn chars(s: &str) -> Vec<char> {
    s.chars().collect()
}

#[test]
fn percent_token_is_hundredths() {
    assert_eq!(coverage_pct_from_str("96.00%"), Some(frac(9600, 10000)));
    assert_eq!(coverage_pct_from_str("96.67%"), Some(frac(9667, 10000)));
    assert_eq!(coverage_pct_from_str("100.00%"), Some(frac(10000, 10000)));
    assert_eq!(coverage_pct_from_str("0.00%"), Some(frac(0, 10000)));
    assert_eq!(coverage_pct_from_str("50%"), Some(frac(50, 100)));
}

#[test]
fn dash_token_is_one() {
    assert_eq!(coverage_pct_from_str("-"), Some(frac(1, 1)));
}

#[test]
fn percent_token_rejects_non_numbers() {
    assert_eq!(coverage_pct_from_str("abc%"), None);
    assert_eq!(coverage_pct_from_str("%"), None);
    assert_eq!(coverage_pct_from_str(""), None);
    assert_eq!(coverage_pct_from_str("1.2.3%"), None);
    assert_eq!(coverage_pct_from_str("--"), None);
}

#[test]
fn percent_token_reads_up_to_the_percent_sign() {
    assert_eq!(coverage_pct_from_str("12.5%x"), Some(frac(125, 1000)));
    assert_eq!(coverage_pct_from_str("12.5"), Some(frac(125, 1000)));
}

#[test]
fn percent_token_too_long_is_rejected() {
    assert_eq!(coverage_pct_from_str("99999999999999999999%"), None);
    assert_eq!(coverage_pct_from_str("1.000000000000000000%"), None);
    assert_eq!(coverage_pct_from_str("1.00000000000000000%"), Some(frac(100000000000000000, 10000000000000000000)));
}

#[test]
fn fraction_numerals() {
    assert_eq!(parse_fraction("0.95"), Some(frac(95, 100)));
    assert_eq!(parse_fraction("1"), Some(frac(1, 1)));
    assert_eq!(parse_fraction(".5"), Some(frac(5, 10)));
    assert_eq!(parse_fraction("0.9%"), None);
    assert_eq!(parse_fraction("x"), None);
    assert_eq!(parse_fraction("."), None);
}

#[test]
fn fraction_comparison() {
    assert!(frac(9600, 10000).is_below(&frac(98, 100)));
    assert!(!frac(9600, 10000).is_below(&frac(96, 100)));
    assert!(!frac(1, 1).is_below(&frac(1, 1)));
    assert!(frac(0, 1).is_below(&frac(1, u64::MAX)));
    assert!(!frac(u64::MAX, u64::MAX).is_below(&frac(1, 1)));
}

#[test]
fn total_row_reads_line_and_branch_columns() {
    let r = parse_total_row("TOTAL 100 0 100.00% 50 2 96.00% 30 1 96.67%");
    assert_eq!(
        r,
        Ok(CoverageReport { line_coverage: frac(9600, 10000), branch_coverage: frac(9667, 10000) })
    );
}

#[test]
fn total_row_ignores_other_columns() {
    let a = parse_total_row("TOTAL 100 0 100.00% 50 2 96.00% 30 1 96.67%");
    let b = parse_total_row("TOTAL 7 x y z w 96.00% 3 4 96.67% extra columns");
    assert_eq!(a, b);
}

#[test]
fn total_row_with_tabs_and_dashes() {
    let r = parse_total_row("  TOTAL\t1\t0\t-\t0\t0\t-\t0\t0\t-  ");
    assert_eq!(r, Ok(CoverageReport { line_coverage: frac(1, 1), branch_coverage: frac(1, 1) }));
}

#[test]
fn total_row_missing_columns() {
    assert_eq!(parse_total_row("TOTAL 100 0 100.00% 50 2 96.00% 30 1"), Err(ReportError::MissingColumn));
    assert_eq!(parse_total_row(""), Err(ReportError::MissingColumn));
}

#[test]
fn total_row_bad_percentage() {
    assert_eq!(
        parse_total_row("TOTAL 100 0 100.00% 50 2 abc% 30 1 96.67%"),
        Err(ReportError::InvalidPercentage)
    );
    assert_eq!(
        parse_total_row("TOTAL 100 0 100.00% 50 2 96.00% 30 1 n/a"),
        Err(ReportError::InvalidPercentage)
    );
}

#[test]
fn finds_first_total_line() {
    let out = "Filename Regions\n---\nsrc/a.rs 1 2\nTOTAL 1 2 3\r\nTOTAL second\n";
    assert_eq!(find_coverage_line(out), Some("TOTAL 1 2 3".to_string()));
    assert_eq!(find_coverage_line("a\nb\n"), None);
    assert_eq!(find_coverage_line(""), None);
    assert_eq!(find_coverage_line("xxTOTALxx"), Some("xxTOTALxx".to_string()));
    assert_eq!(find_coverage_line("TOTA\nL"), None);
}

#[test]
fn report_from_whole_summary() {
    let out = "Filename  Regions  Missed\n----\nsrc/main.rs 10 1 90.00%\n----\nTOTAL 100 0 100.00% 50 2 96.00% 30 1 96.67%\n";
    assert_eq!(
        parse_report(out),
        Ok(CoverageReport { line_coverage: frac(9600, 10000), branch_coverage: frac(9667, 10000) })
    );
    assert_eq!(parse_report("no summary here\n"), Err(ReportError::NoTotalRow));
}

#[test]
fn lines_like_std() {
    for s in ["", "a", "a\n", "a\r\nb", "a\n\nb\n", "\n", "x\r", "\r\n\r\n"] {
        let ours = split_lines(s);
        let std_lines: Vec<String> = s.lines().map(|l| l.to_string()).collect();
        assert_eq!(ours, std_lines, "input {:?}", s);
    }
}

#[test]
fn fields_like_std() {
    for s in ["", "  a  b ", "a\tb\u{3000}c", "one", "\u{A0}x\u{2003}y\n"] {
        let ours: Vec<String> = split_fields(&chars(s)).into_iter().map(|f| f.into_iter().collect()).collect();
        let std_fields: Vec<String> = s.split_whitespace().map(|f| f.to_string()).collect();
        assert_eq!(ours, std_fields, "input {:?}", s);
    }
}

#[test]
fn percent_token_float_forms() {
    assert_eq!(coverage_pct_from_str("1e1%"), Some(frac(1, 10)));
    assert_eq!(coverage_pct_from_str("1e2%"), Some(frac(1, 1)));
    assert_eq!(coverage_pct_from_str("1.5E+1%"), Some(frac(15, 100)));
    assert_eq!(coverage_pct_from_str("9667e-2%"), Some(frac(9667, 10000)));
    assert_eq!(coverage_pct_from_str("+50%"), Some(frac(50, 100)));
    assert_eq!(coverage_pct_from_str("5.%"), Some(frac(5, 100)));
    assert_eq!(coverage_pct_from_str("-0%"), Some(frac(0, 100)));
    assert_eq!(coverage_pct_from_str("0e99%"), Some(frac(0, 1)));
    assert!(frac(20, 100).is_below(&coverage_pct_from_str("1e2%").unwrap()));
}

#[test]
fn percent_token_float_forms_rejected() {
    assert_eq!(coverage_pct_from_str("5e%"), None);
    assert_eq!(coverage_pct_from_str("e5%"), None);
    assert_eq!(coverage_pct_from_str("1e+-1%"), None);
    assert_eq!(coverage_pct_from_str("+-1%"), None);
    assert_eq!(coverage_pct_from_str("-5%"), None);
    assert_eq!(coverage_pct_from_str("inf%"), None);
    assert_eq!(coverage_pct_from_str("NaN%"), None);
    assert_eq!(coverage_pct_from_str("1e-30%"), None);
    assert_eq!(coverage_pct_from_str("1e30%"), None);
}

#[test]
fn total_row_with_exponent_token() {
    let r = parse_total_row("TOTAL 100 0 100.00% 50 2 1e1% 30 1 1e2%");
    assert_eq!(r, Ok(CoverageReport { line_coverage: frac(1, 10), branch_coverage: frac(1, 1) }));
}

#[test]
fn fraction_float_forms() {
    assert_eq!(parse_fraction("9.5e-1"), Some(frac(95, 100)));
    assert_eq!(parse_fraction("+1"), Some(frac(1, 1)));
    assert_eq!(parse_fraction("1E0"), Some(frac(1, 1)));
    assert_eq!(parse_fraction("-1"), None);
}
