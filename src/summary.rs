use vstd::prelude::*;

use crate::compare::{Outcome, OutcomeView};

verus! {

/// The five kinds of [`Outcome`], without their data.
#[derive(Clone, Copy, PartialEq, Eq, Structural, Debug)]
pub enum OutcomeKind {
    LineCountMismatch,
    Matched,
    PartiallyMatched,
    ParseFailure,
    ExecutionFailure,
}

/// The kind of an outcome.
pub open spec fn kind_of(o: OutcomeView) -> OutcomeKind {
    match o {
        OutcomeView::LineCountMismatch => OutcomeKind::LineCountMismatch,
        OutcomeView::Matched { .. } => OutcomeKind::Matched,
        OutcomeView::PartiallyMatched { .. } => OutcomeKind::PartiallyMatched,
        OutcomeView::ParseFailure => OutcomeKind::ParseFailure,
        OutcomeView::ExecutionFailure => OutcomeKind::ExecutionFailure,
    }
}

/// Lines judged to match in one file; zero where no line-level judgment was made.
pub open spec fn matching_lines_of(o: OutcomeView) -> nat {
    match o {
        OutcomeView::Matched { matching } => matching,
        OutcomeView::PartiallyMatched { matching, .. } => matching,
        _ => 0,
    }
}

/// Lines judged to disagree in one file; zero where no line-level judgment was made.
pub open spec fn mismatched_lines_of(o: OutcomeView) -> nat {
    match o {
        OutcomeView::PartiallyMatched { mismatched, .. } => mismatched.len(),
        _ => 0,
    }
}

/// How many of `outs` are of kind `k`.
pub open spec fn count_kind(outs: Seq<OutcomeView>, k: OutcomeKind) -> nat
    decreases outs.len(),
{
    if outs.len() == 0 {
        0
    } else {
        count_kind(outs.drop_last(), k) + if kind_of(outs.last()) == k {
            1nat
        } else {
            0nat
        }
    }
}

/// Matching lines over all of `outs`.
pub open spec fn total_matching(outs: Seq<OutcomeView>) -> nat
    decreases outs.len(),
{
    if outs.len() == 0 {
        0
    } else {
        total_matching(outs.drop_last()) + matching_lines_of(outs.last())
    }
}

/// Mismatched lines over all of `outs`.
pub open spec fn total_mismatched(outs: Seq<OutcomeView>) -> nat
    decreases outs.len(),
{
    if outs.len() == 0 {
        0
    } else {
        total_mismatched(outs.drop_last()) + mismatched_lines_of(outs.last())
    }
}

/// The models of a sequence of outcomes.
pub open spec fn views_of(outcomes: Seq<Outcome>) -> Seq<OutcomeView> {
    outcomes.map_values(|o: Outcome| o@)
}

/// The share of matching lines in percent, in hundredths of a percent, rounded half up.
pub open spec fn percentage_hundredths_of(matching: nat, mismatched: nat) -> nat {
    (20000 * matching + (matching + mismatched)) / (2 * (matching + mismatched))
}

impl Outcome {
    /// The kind of this outcome.
    pub fn kind(&self) -> (k: OutcomeKind)
        ensures
            k == kind_of(self@),
    {
        match self {
            Outcome::LineCountMismatch => OutcomeKind::LineCountMismatch,
            Outcome::Matched { .. } => OutcomeKind::Matched,
            Outcome::PartiallyMatched { .. } => OutcomeKind::PartiallyMatched,
            Outcome::ParseFailure => OutcomeKind::ParseFailure,
            Outcome::ExecutionFailure => OutcomeKind::ExecutionFailure,
        }
    }
}

/// Counts over all compared files: files per outcome kind, and lines judged to
/// match or to disagree.
#[derive(Clone, Copy, PartialEq, Eq, Structural, Debug)]
pub struct CorpusSummary {
    pub files: usize,
    pub matched: usize,
    pub partially_matched: usize,
    pub line_count_mismatch: usize,
    pub parse_failure: usize,
    pub execution_failure: usize,
    pub matching_lines: u64,
    pub mismatched_lines: u64,
}

proof fn lemma_totals_grow(outs: Seq<OutcomeView>, i: int)
    requires
        0 <= i <= outs.len(),
    ensures
        total_matching(outs.take(i)) <= total_matching(outs),
        total_mismatched(outs.take(i)) <= total_mismatched(outs),
    decreases outs.len(),
{
    if i == outs.len() {
        assert(outs.take(i) =~= outs);
    } else {
        lemma_totals_grow(outs.drop_last(), i);
        assert(outs.drop_last().take(i) =~= outs.take(i));
    }
}

impl CorpusSummary {
    /// Folds the outcomes of all compared files, in order, into corpus counts.
    pub fn summarize(outcomes: &Vec<Outcome>) -> (s: CorpusSummary)
        requires
            total_matching(views_of(outcomes@)) <= u64::MAX,
            total_mismatched(views_of(outcomes@)) <= u64::MAX,
        ensures
            s.files == outcomes.len(),
            s.matched == count_kind(views_of(outcomes@), OutcomeKind::Matched),
            s.partially_matched == count_kind(views_of(outcomes@), OutcomeKind::PartiallyMatched),
            s.line_count_mismatch == count_kind(
                views_of(outcomes@),
                OutcomeKind::LineCountMismatch,
            ),
            s.parse_failure == count_kind(views_of(outcomes@), OutcomeKind::ParseFailure),
            s.execution_failure == count_kind(views_of(outcomes@), OutcomeKind::ExecutionFailure),
            s.matching_lines == total_matching(views_of(outcomes@)),
            s.mismatched_lines == total_mismatched(views_of(outcomes@)),
    {
        let ghost outs = views_of(outcomes@);
        let mut s = CorpusSummary {
            files: 0,
            matched: 0,
            partially_matched: 0,
            line_count_mismatch: 0,
            parse_failure: 0,
            execution_failure: 0,
            matching_lines: 0,
            mismatched_lines: 0,
        };
        let mut i: usize = 0;
        while i < outcomes.len()
            invariant
                i <= outcomes.len(),
                outs == views_of(outcomes@),
                total_matching(outs) <= u64::MAX,
                total_mismatched(outs) <= u64::MAX,
                s.files == i,
                s.matched + s.partially_matched + s.line_count_mismatch + s.parse_failure
                    + s.execution_failure == i,
                s.matched == count_kind(outs.take(i as int), OutcomeKind::Matched),
                s.partially_matched == count_kind(outs.take(i as int), OutcomeKind::PartiallyMatched),
                s.line_count_mismatch == count_kind(
                    outs.take(i as int),
                    OutcomeKind::LineCountMismatch,
                ),
                s.parse_failure == count_kind(outs.take(i as int), OutcomeKind::ParseFailure),
                s.execution_failure == count_kind(outs.take(i as int), OutcomeKind::ExecutionFailure),
                s.matching_lines == total_matching(outs.take(i as int)),
                s.mismatched_lines == total_mismatched(outs.take(i as int)),
            decreases outcomes.len() - i,
        {
            let o = &outcomes[i];
            assert(outs.take(i + 1).drop_last() =~= outs.take(i as int));
            assert(outs.take(i + 1).last() == o@);
            proof {
                lemma_totals_grow(outs, i + 1);
            }
            match o {
                Outcome::LineCountMismatch => {
                    s.line_count_mismatch = s.line_count_mismatch + 1;
                },
                Outcome::Matched { matching_line_count } => {
                    s.matched = s.matched + 1;
                    s.matching_lines = s.matching_lines + *matching_line_count as u64;
                },
                Outcome::PartiallyMatched { matching_line_count, mismatched_line_indices } => {
                    s.partially_matched = s.partially_matched + 1;
                    s.matching_lines = s.matching_lines + *matching_line_count as u64;
                    s.mismatched_lines = s.mismatched_lines + mismatched_line_indices.len() as u64;
                },
                Outcome::ParseFailure => {
                    s.parse_failure = s.parse_failure + 1;
                },
                Outcome::ExecutionFailure => {
                    s.execution_failure = s.execution_failure + 1;
                },
            }
            s.files = s.files + 1;
            i = i + 1;
        }
        assert(outs.take(i as int) =~= outs);
        s
    }

    /// Matching lines as a share of all judged lines, in hundredths of a percent,
    /// rounded half up; `None` where no line was judged.
    pub fn percentage_hundredths(&self) -> (r: Option<u64>)
        ensures
            self.matching_lines + self.mismatched_lines == 0 <==> r is None,
            r matches Some(p) ==> p == percentage_hundredths_of(
                self.matching_lines as nat,
                self.mismatched_lines as nat,
            ),
    {
        let m = self.matching_lines as u128;
        let d = m + self.mismatched_lines as u128;
        if d == 0 {
            return None;
        }
        let q = (20000 * m + d) / (2 * d);
        assert(q <= 10000) by (nonlinear_arith)
            requires
                m <= d,
                0 < d,
                q == (20000 * m + d) / (2 * d),
        ;
        Some(q as u64)
    }
}

} // verus!
