use blame_compare::compare::Outcome;
use blame_compare::summary::{CorpusSummary, OutcomeKind};

#[test]
fn aggregation_example() {
    let outcomes = vec![
        Outcome::Matched { matching_line_count: 10 },
        Outcome::PartiallyMatched { matching_line_count: 8, mismatched_line_indices: vec![2] },
        Outcome::LineCountMismatch,
    ];
    let s = CorpusSummary::summarize(&outcomes);
    assert_eq!(s.files, 3);
    assert_eq!(s.matching_lines, 18);
    assert_eq!(s.mismatched_lines, 1);
    assert_eq!(s.matched, 1);
    assert_eq!(s.partially_matched, 1);
    assert_eq!(s.line_count_mismatch, 1);
    assert_eq!(s.parse_failure, 0);
    assert_eq!(s.execution_failure, 0);
    assert_eq!(s.percentage_hundredths(), Some(9474));
}

#[test]
fn failures_contribute_no_lines() {
    let outcomes = vec![
        Outcome::ParseFailure,
        Outcome::ExecutionFailure,
        Outcome::ExecutionFailure,
        Outcome::LineCountMismatch,
    ];
    let s = CorpusSummary::summarize(&outcomes);
    assert_eq!(s.files, 4);
    assert_eq!(s.parse_failure, 1);
    assert_eq!(s.execution_failure, 2);
    assert_eq!(s.line_count_mismatch, 1);
    assert_eq!(s.matching_lines, 0);
    assert_eq!(s.mismatched_lines, 0);
    assert_eq!(s.percentage_hundredths(), None);
}

#[test]
fn empty_corpus() {
    let s = CorpusSummary::summarize(&Vec::new());
    assert_eq!(s.files, 0);
    assert_eq!(s.percentage_hundredths(), None);
}

#[test]
fn percentage_bounds() {
    let all = CorpusSummary::summarize(&vec![Outcome::Matched { matching_line_count: 7 }]);
    assert_eq!(all.percentage_hundredths(), Some(10000));
    let none = CorpusSummary::summarize(&vec![Outcome::PartiallyMatched {
        matching_line_count: 0,
        mismatched_line_indices: vec![0, 1, 2],
    }]);
    assert_eq!(none.percentage_hundredths(), Some(0));
    let third = CorpusSummary::summarize(&vec![Outcome::PartiallyMatched {
        matching_line_count: 1,
        mismatched_line_indices: vec![0, 2],
    }]);
    assert_eq!(third.percentage_hundredths(), Some(3333));
}

#[test]
fn outcome_kinds() {
    assert_eq!(Outcome::LineCountMismatch.kind(), OutcomeKind::LineCountMismatch);
    assert_eq!(Outcome::Matched { matching_line_count: 1 }.kind(), OutcomeKind::Matched);
    assert_eq!(
        Outcome::PartiallyMatched { matching_line_count: 1, mismatched_line_indices: vec![0] }.kind(),
        OutcomeKind::PartiallyMatched
    );
    assert_eq!(Outcome::ParseFailure.kind(), OutcomeKind::ParseFailure);
    assert_eq!(Outcome::ExecutionFailure.kind(), OutcomeKind::ExecutionFailure);
}
