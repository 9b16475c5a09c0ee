use vstd::prelude::*;

use crate::format::{parse_line, revision_of, ExecutableKind};
use crate::text::{lines_of, split_lines};

verus! {

/// The classified result of comparing one file's two blame outputs.
#[derive(Clone, PartialEq, Eq, Debug)]
pub enum Outcome {
    /// The two outputs have different numbers of lines.
    LineCountMismatch,
    /// Every line's revision ids are compatible.
    Matched { matching_line_count: usize },
    /// Some lines disagree; their 0-based positions, in increasing order.
    PartiallyMatched { matching_line_count: usize, mismatched_line_indices: Vec<usize> },
    /// A line of either output does not conform to its tool's format.
    ParseFailure,
    /// One of the two tool invocations failed; no output is trusted.
    ExecutionFailure,
}

/// Mathematical model of an [`Outcome`].
pub enum OutcomeView {
    LineCountMismatch,
    Matched { matching: nat },
    PartiallyMatched { matching: nat, mismatched: Seq<int> },
    ParseFailure,
    ExecutionFailure,
}

impl View for Outcome {
    type V = OutcomeView;

    open spec fn view(&self) -> OutcomeView {
        match self {
            Outcome::LineCountMismatch => OutcomeView::LineCountMismatch,
            Outcome::Matched { matching_line_count } => OutcomeView::Matched {
                matching: *matching_line_count as nat,
            },
            Outcome::PartiallyMatched { matching_line_count, mismatched_line_indices } =>
                OutcomeView::PartiallyMatched {
                matching: *matching_line_count as nat,
                mismatched: mismatched_line_indices@.map_values(|i: usize| i as int),
            },
            Outcome::ParseFailure => OutcomeView::ParseFailure,
            Outcome::ExecutionFailure => OutcomeView::ExecutionFailure,
        }
    }
}

/// Two revision ids name the same revision when one is a prefix of the other.
pub open spec fn compatible(a: Seq<char>, b: Seq<char>) -> bool {
    a.is_prefix_of(b) || b.is_prefix_of(a)
}

/// Every line conforms to the format of `kind`.
pub open spec fn all_parse(kind: ExecutableKind, lines: Seq<Seq<char>>) -> bool {
    forall|i: int| 0 <= i < lines.len() ==> (#[trigger] revision_of(kind, lines[i])) is Some
}

/// The revision ids of a reference line and a candidate line are compatible.
pub open spec fn lines_agree(
    reference_kind: ExecutableKind,
    candidate_kind: ExecutableKind,
    reference: Seq<char>,
    candidate: Seq<char>,
) -> bool {
    compatible(revision_of(reference_kind, reference)->0, revision_of(candidate_kind, candidate)->0)
}

/// The positions below `n`, in increasing order, at which the paired lines disagree.
pub open spec fn mismatch_positions(
    reference_kind: ExecutableKind,
    candidate_kind: ExecutableKind,
    reference: Seq<Seq<char>>,
    candidate: Seq<Seq<char>>,
    n: int,
) -> Seq<int>
    decreases n,
{
    if n <= 0 {
        Seq::empty()
    } else {
        let earlier = mismatch_positions(reference_kind, candidate_kind, reference, candidate, n - 1);
        if lines_agree(reference_kind, candidate_kind, reference[n - 1], candidate[n - 1]) {
            earlier
        } else {
            earlier.push(n - 1)
        }
    }
}

/// The outcome of comparing two sequences of blame lines.
pub open spec fn comparison_of(
    reference_kind: ExecutableKind,
    candidate_kind: ExecutableKind,
    reference: Seq<Seq<char>>,
    candidate: Seq<Seq<char>>,
) -> OutcomeView {
    if reference.len() != candidate.len() {
        OutcomeView::LineCountMismatch
    } else if !(all_parse(reference_kind, reference) && all_parse(candidate_kind, candidate)) {
        OutcomeView::ParseFailure
    } else {
        let m = mismatch_positions(
            reference_kind,
            candidate_kind,
            reference,
            candidate,
            reference.len() as int,
        );
        if m.len() == 0 {
            OutcomeView::Matched { matching: reference.len() }
        } else {
            OutcomeView::PartiallyMatched { matching: (reference.len() - m.len()) as nat, mismatched: m }
        }
    }
}

/// Whether two revision ids name the same revision: one is a prefix of the other.
pub fn revisions_compatible(a: &Vec<char>, b: &Vec<char>) -> (r: bool)
    ensures
        r == compatible(a@, b@),
{
    let n = if a.len() <= b.len() { a.len() } else { b.len() };
    let mut i: usize = 0;
    while i < n
        invariant
            n <= a.len(),
            n <= b.len(),
            n == a.len() || n == b.len(),
            i <= n,
            forall|k: int| 0 <= k < i ==> a@[k] == b@[k],
        decreases n - i,
    {
        if a[i] != b[i] {
            proof {
                if a@.is_prefix_of(b@) {
                    assert(a@[i as int] == b@.subrange(0, a@.len() as int)[i as int]);
                }
                if b@.is_prefix_of(a@) {
                    assert(b@[i as int] == a@.subrange(0, b@.len() as int)[i as int]);
                }
            }
            return false;
        }
        i = i + 1;
    }
    if n == a.len() {
        assert(a@ =~= b@.subrange(0, a@.len() as int));
    } else {
        assert(b@ =~= a@.subrange(0, b@.len() as int));
    }
    true
}

/// Compares two sequences of blame lines, pairing them by position.
pub fn compare_lines(
    reference_kind: ExecutableKind,
    candidate_kind: ExecutableKind,
    reference: &Vec<Vec<char>>,
    candidate: &Vec<Vec<char>>,
) -> (o: Outcome)
    ensures
        o@ == comparison_of(reference_kind, candidate_kind, reference.deep_view(), candidate.deep_view()),
{
    let ghost rs = reference.deep_view();
    let ghost cs = candidate.deep_view();
    if reference.len() != candidate.len() {
        return Outcome::LineCountMismatch;
    }
    let n = reference.len();
    let mut matching: usize = 0;
    let mut mismatched: Vec<usize> = Vec::new();
    let mut i: usize = 0;
    while i < n
        invariant
            n == reference.len() == candidate.len(),
            rs == reference.deep_view(),
            cs == candidate.deep_view(),
            i <= n,
            forall|k: int| 0 <= k < i ==> (#[trigger] revision_of(reference_kind, rs[k])) is Some,
            forall|k: int| 0 <= k < i ==> (#[trigger] revision_of(candidate_kind, cs[k])) is Some,
            mismatched@.map_values(|k: usize| k as int) == mismatch_positions(
                reference_kind,
                candidate_kind,
                rs,
                cs,
                i as int,
            ),
            matching + mismatched.len() == i,
        decreases n - i,
    {
        assert(reference@[i as int]@ == rs[i as int]);
        assert(candidate@[i as int]@ == cs[i as int]);
        let a = match parse_line(reference_kind, &reference[i]) {
            Some(a) => a,
            None => {
                assert(!all_parse(reference_kind, rs));
                return Outcome::ParseFailure;
            },
        };
        let b = match parse_line(candidate_kind, &candidate[i]) {
            Some(b) => b,
            None => {
                assert(!all_parse(candidate_kind, cs));
                return Outcome::ParseFailure;
            },
        };
        let ghost before = mismatched@;
        if revisions_compatible(&a, &b) {
            matching = matching + 1;
        } else {
            mismatched.push(i);
            assert(mismatched@.map_values(|k: usize| k as int) =~= before.map_values(
                |k: usize| k as int,
            ).push(i as int));
        }
        i = i + 1;
    }
    assert(all_parse(reference_kind, rs));
    assert(all_parse(candidate_kind, cs));
    if mismatched.len() == 0 {
        Outcome::Matched { matching_line_count: matching }
    } else {
        Outcome::PartiallyMatched { matching_line_count: matching, mismatched_line_indices: mismatched }
    }
}

/// The outcome of comparing the complete outputs of the two tools for one file.
pub open spec fn file_outcome(
    reference_kind: ExecutableKind,
    candidate_kind: ExecutableKind,
    reference: Seq<char>,
    candidate: Seq<char>,
) -> OutcomeView {
    comparison_of(reference_kind, candidate_kind, lines_of(reference), lines_of(candidate))
}

/// Compares the complete outputs of the reference and the candidate tool for one file.
pub fn compare_outputs(
    reference_kind: ExecutableKind,
    candidate_kind: ExecutableKind,
    reference: &str,
    candidate: &str,
) -> (o: Outcome)
    ensures
        o@ == file_outcome(reference_kind, candidate_kind, reference@, candidate@),
{
    let reference_lines = split_lines(reference);
    let candidate_lines = split_lines(candidate);
    compare_lines(reference_kind, candidate_kind, &reference_lines, &candidate_lines)
}

/// What one run of a tool on one file yielded.
#[derive(Clone, PartialEq, Eq, Debug)]
pub enum Capture {
    /// The tool did not complete successfully.
    Failed,
    /// The tool succeeded, but its output is not valid UTF-8.
    Undecodable,
    /// The tool succeeded with this output.
    Text(String),
}

/// The outcome for one file, given what each tool's run yielded.
pub open spec fn capture_outcome(
    reference_kind: ExecutableKind,
    candidate_kind: ExecutableKind,
    reference: Capture,
    candidate: Capture,
) -> OutcomeView {
    if reference is Failed || candidate is Failed {
        OutcomeView::ExecutionFailure
    } else if reference is Undecodable || candidate is Undecodable {
        OutcomeView::ParseFailure
    } else {
        file_outcome(reference_kind, candidate_kind, reference->Text_0@, candidate->Text_0@)
    }
}

/// Classifies one file from what each tool's run yielded: a failed run is an
/// execution failure, undecodable output a parse failure.
pub fn judge_captures(
    reference_kind: ExecutableKind,
    candidate_kind: ExecutableKind,
    reference: &Capture,
    candidate: &Capture,
) -> (o: Outcome)
    ensures
        o@ == capture_outcome(reference_kind, candidate_kind, *reference, *candidate),
{
    match (reference, candidate) {
        (Capture::Failed, _) | (_, Capture::Failed) => Outcome::ExecutionFailure,
        (Capture::Undecodable, _) | (_, Capture::Undecodable) => Outcome::ParseFailure,
        (Capture::Text(r), Capture::Text(c)) => compare_outputs(
            reference_kind,
            candidate_kind,
            r.as_str(),
            c.as_str(),
        ),
    }
}

} // verus!
