use vstd::prelude::*;

use crate::compare::{
    all_parse, comparison_of, compatible, file_outcome, lines_agree, mismatch_positions, Outcome,
    OutcomeView,
};
use crate::format::{revision_of, ExecutableKind};

verus! {

proof fn lemma_all_agree_no_mismatch(
    reference_kind: ExecutableKind,
    candidate_kind: ExecutableKind,
    reference: Seq<Seq<char>>,
    candidate: Seq<Seq<char>>,
    n: int,
)
    requires
        0 <= n <= reference.len(),
        forall|i: int|
            0 <= i < n ==> lines_agree(reference_kind, candidate_kind, reference[i], candidate[i]),
    ensures
        mismatch_positions(reference_kind, candidate_kind, reference, candidate, n).len() == 0,
    decreases n,
{
    if n > 0 {
        lemma_all_agree_no_mismatch(reference_kind, candidate_kind, reference, candidate, n - 1);
        assert(lines_agree(reference_kind, candidate_kind, reference[n - 1], candidate[n - 1]));
    }
}

/// Two equally long sequences of well-formed lines whose paired lines carry identical
/// revision ids match on every line.
pub proof fn lemma_identical_revisions_match(
    reference_kind: ExecutableKind,
    candidate_kind: ExecutableKind,
    reference: Seq<Seq<char>>,
    candidate: Seq<Seq<char>>,
)
    requires
        reference.len() == candidate.len(),
        all_parse(reference_kind, reference),
        all_parse(candidate_kind, candidate),
        forall|i: int|
            0 <= i < reference.len() ==> revision_of(reference_kind, #[trigger] reference[i])
                == revision_of(candidate_kind, candidate[i]),
    ensures
        comparison_of(reference_kind, candidate_kind, reference, candidate)
            == (OutcomeView::Matched { matching: reference.len() }),
{
    assert forall|i: int| 0 <= i < reference.len() implies lines_agree(
        reference_kind,
        candidate_kind,
        reference[i],
        candidate[i],
    ) by {
        let r = revision_of(reference_kind, reference[i])->0;
        assert(r =~= r.subrange(0, r.len() as int));
    }
    lemma_all_agree_no_mismatch(
        reference_kind,
        candidate_kind,
        reference,
        candidate,
        reference.len() as int,
    );
}

/// Compatibility of revision ids is symmetric, and an id is compatible with every
/// id of which it is a strict prefix, in either order.
pub proof fn lemma_prefix_compatible(a: Seq<char>, b: Seq<char>)
    ensures
        compatible(a, b) == compatible(b, a),
        a.len() < b.len() && a == b.subrange(0, a.len() as int) ==> compatible(a, b) && compatible(
            b,
            a,
        ),
{
}

/// Line sequences of different lengths are never compared line by line.
pub proof fn lemma_length_mismatch(
    reference_kind: ExecutableKind,
    candidate_kind: ExecutableKind,
    reference: Seq<Seq<char>>,
    candidate: Seq<Seq<char>>,
)
    requires
        reference.len() != candidate.len(),
    ensures
        comparison_of(reference_kind, candidate_kind, reference, candidate)
            == OutcomeView::LineCountMismatch,
{
}

/// Comparing the same two outputs twice yields the same outcome.
pub proof fn lemma_comparison_idempotent(
    reference_kind: ExecutableKind,
    candidate_kind: ExecutableKind,
    reference: Seq<char>,
    candidate: Seq<char>,
    first: Outcome,
    second: Outcome,
)
    requires
        first@ == file_outcome(reference_kind, candidate_kind, reference, candidate),
        second@ == file_outcome(reference_kind, candidate_kind, reference, candidate),
    ensures
        first@ == second@,
{
}

proof fn lemma_mismatch_positions_exact(
    reference_kind: ExecutableKind,
    candidate_kind: ExecutableKind,
    reference: Seq<Seq<char>>,
    candidate: Seq<Seq<char>>,
    n: int,
)
    requires
        0 <= n,
    ensures
        ({
            let m = mismatch_positions(reference_kind, candidate_kind, reference, candidate, n);
            &&& m.len() <= n
            &&& forall|i: int, j: int| 0 <= i < j < m.len() ==> m[i] < m[j]
            &&& forall|i: int| 0 <= i < m.len() ==> 0 <= #[trigger] m[i] < n
            &&& forall|k: int|
                0 <= k < n ==> (m.contains(k) <==> !lines_agree(
                    reference_kind,
                    candidate_kind,
                    #[trigger] reference[k],
                    candidate[k],
                ))
        }),
    decreases n,
{
    if n > 0 {
        lemma_mismatch_positions_exact(reference_kind, candidate_kind, reference, candidate, n - 1);
        let e = mismatch_positions(reference_kind, candidate_kind, reference, candidate, n - 1);
        let m = mismatch_positions(reference_kind, candidate_kind, reference, candidate, n);
        assert forall|k: int| 0 <= k < n implies (m.contains(k) <==> !lines_agree(
            reference_kind,
            candidate_kind,
            #[trigger] reference[k],
            candidate[k],
        )) by {
            if m.contains(k) {
                let w = choose|w: int| 0 <= w < m.len() && m[w] == k;
                if k < n - 1 {
                    assert(w < e.len());
                    assert(e[w] == k);
                }
            }
            if k < n - 1 && e.contains(k) {
                let w = choose|w: int| 0 <= w < e.len() && e[w] == k;
                assert(m[w] == k);
            }
            if k == n - 1 && !lines_agree(reference_kind, candidate_kind, reference[k], candidate[k]) {
                assert(m[m.len() - 1] == k);
            }
        }
    }
}

/// In a partial match the mismatched positions are strictly increasing, there is at
/// least one, they are exactly the positions whose revision ids are incompatible,
/// and together with the matching lines they account for every line.
pub proof fn lemma_partial_match_positions(
    reference_kind: ExecutableKind,
    candidate_kind: ExecutableKind,
    reference: Seq<Seq<char>>,
    candidate: Seq<Seq<char>>,
)
    ensures
        comparison_of(reference_kind, candidate_kind, reference, candidate) matches
            OutcomeView::PartiallyMatched { matching, mismatched } ==> {
            &&& mismatched.len() > 0
            &&& matching + mismatched.len() == reference.len()
            &&& forall|i: int, j: int| 0 <= i < j < mismatched.len() ==> mismatched[i] < mismatched[j]
            &&& forall|k: int|
                mismatched.contains(k) <==> (0 <= k < reference.len() && !lines_agree(
                    reference_kind,
                    candidate_kind,
                    reference[k],
                    candidate[k],
                ))
        },
{
    let n = reference.len() as int;
    lemma_mismatch_positions_exact(reference_kind, candidate_kind, reference, candidate, n);
    let m = mismatch_positions(reference_kind, candidate_kind, reference, candidate, n);
    assert forall|k: int| m.contains(k) implies 0 <= k < n by {
        let w = choose|w: int| 0 <= w < m.len() && m[w] == k;
    }
}

} // verus!
