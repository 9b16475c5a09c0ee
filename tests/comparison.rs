use blame_compare::compare::{compare_outputs, judge_captures, revisions_compatible, Capture, Outcome};
use blame_compare::format::{parse_candidate_line, parse_line, parse_reference_line, ExecutableKind};
use blame_compare::text::split_lines;

const REF: ExecutableKind = ExecutableKind::ReferenceTool;
const CAND: ExecutableKind = ExecutableKind::CandidateTool;

fn chars(s: &str) -> Vec<char> {
    s.chars().collect()
}

#[test]
fn partial_match_example() {
    let reference = "abc123 (Alice 1) foo\ndef456 (Bob 2) bar\n";
    let candidate = "abc1 1 1 foo\ndeadbeef 2 2 bar\n";
    assert_eq!(
        compare_outputs(REF, CAND, reference, candidate),
        Outcome::PartiallyMatched { matching_line_count: 1, mismatched_line_indices: vec![1] }
    );
}

#[test]
fn three_lines_against_two() {
    let reference = "a1 (A 1) x\nb2 (B 2) y\nc3 (C 3) z\n";
    let candidate = "a1 1 1 x\nb2 2 2 y\n";
    assert_eq!(compare_outputs(REF, CAND, reference, candidate), Outcome::LineCountMismatch);
}

#[test]
fn differing_lengths_ignore_content() {
    let reference = "not a blame line\n";
    let candidate = "";
    assert_eq!(compare_outputs(REF, CAND, reference, candidate), Outcome::LineCountMismatch);
    assert_eq!(compare_outputs(REF, CAND, "", "garbage\nmore"), Outcome::LineCountMismatch);
}

#[test]
fn missing_revision_fails_whole_file() {
    let reference = "a1 (A 1) w\nb2 (B 2) x\nc3 (C 3) y\nd4 (D 4) z\n";
    let candidate = "a1 1 1 w\nb2 2 2 x\nc3 3 3 y\n4 4 z\n";
    assert_eq!(compare_outputs(REF, CAND, reference, candidate), Outcome::ParseFailure);
}

#[test]
fn malformed_reference_line_fails_whole_file() {
    let reference = "a1 (A 1) w\nb2 no annotation here\n";
    let candidate = "a1 1 1 w\nb2 2 2 x\n";
    assert_eq!(compare_outputs(REF, CAND, reference, candidate), Outcome::ParseFailure);
}

#[test]
fn identical_revisions_match_every_line() {
    let reference = "1234abcd (Ann 2024-01-01 1) one\n^5678 (Ann 2024-01-01 2) two\n9abc (Bo 3) three\n";
    let candidate = "1234abcd 1 1 one\n5678 2 2 two\n9abc 3 3 three\n";
    assert_eq!(
        compare_outputs(REF, CAND, reference, candidate),
        Outcome::Matched { matching_line_count: 3 }
    );
}

#[test]
fn abbreviated_hash_in_either_order_matches() {
    let reference = "abcdef0123 (A 1) x\nab (B 2) y\n";
    let candidate = "abcd 1 1 x\nabcdef 2 2 y\n";
    assert_eq!(
        compare_outputs(REF, CAND, reference, candidate),
        Outcome::Matched { matching_line_count: 2 }
    );
}

#[test]
fn compatibility_is_symmetric_prefix() {
    let full = chars("abc123");
    let short = chars("abc1");
    let other = chars("abd1");
    assert!(revisions_compatible(&full, &short));
    assert!(revisions_compatible(&short, &full));
    assert!(!revisions_compatible(&short, &other));
    assert!(!revisions_compatible(&other, &short));
    assert!(revisions_compatible(&full, &full));
}

#[test]
fn equal_length_distinct_ids_are_incompatible() {
    assert!(!revisions_compatible(&chars("abc1"), &chars("abc2")));
}

#[test]
fn comparison_is_idempotent() {
    let reference = "abc123 (Alice 1) foo\ndef456 (Bob 2) bar\n";
    let candidate = "abc1 1 1 foo\ndeadbeef 2 2 bar\n";
    let first = compare_outputs(REF, CAND, reference, candidate);
    let second = compare_outputs(REF, CAND, reference, candidate);
    assert_eq!(first, second);
}

#[test]
fn mismatch_indices_are_increasing_and_exact() {
    let reference = "a1 (A 1) p\nb2 (A 2) q\nc3 (A 3) r\nd4 (A 4) s\ne5 (A 5) t\n";
    let candidate = "a1 1 1 p\nf2 2 2 q\nc3 3 3 r\nf4 4 4 s\nf5 5 5 t\n";
    assert_eq!(
        compare_outputs(REF, CAND, reference, candidate),
        Outcome::PartiallyMatched { matching_line_count: 2, mismatched_line_indices: vec![1, 3, 4] }
    );
}

#[test]
fn empty_outputs_match_with_zero_lines() {
    assert_eq!(compare_outputs(REF, CAND, "", ""), Outcome::Matched { matching_line_count: 0 });
}

#[test]
fn reference_line_with_boundary_and_file_name() {
    let line = chars("^abc123 src/main.rs (Alice Smith 2020-01-01 12:00:00 +0000 17) let x = (1);");
    assert_eq!(parse_reference_line(&line), Some(chars("abc123")));
}

#[test]
fn reference_line_with_parenthesized_source_text() {
    let line = chars("0f0f (Bob 2021-02-03 9) call(f(x)) // (note 3)");
    assert_eq!(parse_reference_line(&line), Some(chars("0f0f")));
}

#[test]
fn reference_line_rejections() {
    assert_eq!(parse_reference_line(&chars("abc123 (Alice) foo")), None);
    assert_eq!(parse_reference_line(&chars("ABC123 (Alice 1) foo")), None);
    assert_eq!(parse_reference_line(&chars("(Alice 1) foo")), None);
    assert_eq!(parse_reference_line(&chars("abc123 (Alice 1)")), None);
    assert_eq!(parse_reference_line(&chars("abc123 a^b (Alice 1) foo")), None);
}

#[test]
fn candidate_line_fields() {
    assert_eq!(parse_candidate_line(&chars("deadbeef 12 34 some text")), Some(chars("deadbeef")));
    assert_eq!(parse_candidate_line(&chars("deadbeef 12 34 ")), Some(chars("deadbeef")));
    assert_eq!(parse_candidate_line(&chars("deadbeef 12 text")), None);
    assert_eq!(parse_candidate_line(&chars(" 12 34 text")), None);
    assert_eq!(parse_candidate_line(&chars("xyz 1 2 text")), None);
    assert_eq!(parse_line(CAND, &chars("00 1 2 t")), Some(chars("00")));
    assert_eq!(parse_line(REF, &chars("00 1 2 t")), None);
}

#[test]
fn line_splitting() {
    let lines = split_lines("a\r\nb\n\n c\r\nd\r");
    assert_eq!(lines, vec![chars("a"), chars("b"), chars(" c"), chars("d\r")]);
    assert_eq!(split_lines("x\n"), vec![chars("x")]);
    assert!(split_lines("").is_empty());
    assert!(split_lines("\n\r\n").is_empty());
}

#[test]
fn crlf_output_compares_like_lf() {
    let reference = "abc123 (Alice 1) foo\r\ndef456 (Bob 2) bar\r\n";
    let candidate = "abc1 1 1 foo\ndef4 2 2 bar\n";
    assert_eq!(
        compare_outputs(REF, CAND, reference, candidate),
        Outcome::Matched { matching_line_count: 2 }
    );
}

#[test]
fn failed_run_is_execution_failure() {
    let ok = Capture::Text("a1 1 1 x\n".to_string());
    assert_eq!(judge_captures(CAND, CAND, &Capture::Failed, &ok), Outcome::ExecutionFailure);
    assert_eq!(judge_captures(CAND, CAND, &ok, &Capture::Failed), Outcome::ExecutionFailure);
    assert_eq!(
        judge_captures(CAND, CAND, &Capture::Undecodable, &Capture::Failed),
        Outcome::ExecutionFailure
    );
}

#[test]
fn undecodable_output_is_parse_failure() {
    let ok = Capture::Text("a1 1 1 x\n".to_string());
    assert_eq!(judge_captures(CAND, CAND, &Capture::Undecodable, &ok), Outcome::ParseFailure);
    assert_eq!(
        judge_captures(CAND, CAND, &ok, &ok),
        Outcome::Matched { matching_line_count: 1 }
    );
}
