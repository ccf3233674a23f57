//! The aggregator: folding per-commit triples into running totals.

use vstd::prelude::*;
use crate::commit::Commit;

verus! {

/// A sum clamped to the largest machine integer.  The executable
/// aggregator saturates instead of overflowing, so its contract speaks of
/// the mathematical sum through this function.
pub open spec fn capped(n: nat) -> nat {
    if n > usize::MAX as nat {
        usize::MAX as nat
    } else {
        n
    }
}

/// Mathematical sum of `files_changed` over a sequence of commits.
pub open spec fn total_files(s: Seq<Commit>) -> nat
    decreases s.len(),
{
    if s.len() == 0 {
        0
    } else {
        (total_files(s.drop_last()) + s.last().files_changed) as nat
    }
}

/// Mathematical sum of `added` over a sequence of commits.
pub open spec fn total_added(s: Seq<Commit>) -> nat
    decreases s.len(),
{
    if s.len() == 0 {
        0
    } else {
        (total_added(s.drop_last()) + s.last().added) as nat
    }
}

/// Mathematical sum of `deleted` over a sequence of commits.
pub open spec fn total_deleted(s: Seq<Commit>) -> nat
    decreases s.len(),
{
    if s.len() == 0 {
        0
    } else {
        (total_deleted(s.drop_last()) + s.last().deleted) as nat
    }
}

/// Fold the statistics of all commits into `(total_files, total_added,
/// total_deleted)`.  Pure summation: the empty sequence yields all zeros,
/// and the result depends only on which commits appear, not on their
/// order (see `lemma_totals_permutation`).  Sums beyond the machine range
/// saturate at `usize::MAX`.
pub fn aggregate(commits: &Vec<Commit>) -> (r: (usize, usize, usize))
    ensures
        r.0 as nat == capped(total_files(commits@)),
        r.1 as nat == capped(total_added(commits@)),
        r.2 as nat == capped(total_deleted(commits@)),
{
    let mut tf: usize = 0;
    let mut ta: usize = 0;
    let mut td: usize = 0;
    let mut i: usize = 0;
    while i < commits.len()
        invariant
            0 <= i <= commits.len(),
            tf as nat == capped(total_files(commits@.take(i as int))),
            ta as nat == capped(total_added(commits@.take(i as int))),
            td as nat == capped(total_deleted(commits@.take(i as int))),
        decreases commits.len() - i,
    {
        proof {
            assert(commits@.take(i + 1).drop_last() =~= commits@.take(i as int));
            assert(commits@.take(i + 1).last() == commits@[i as int]);
        }
        tf = tf.saturating_add(commits[i].files_changed);
        ta = ta.saturating_add(commits[i].added);
        td = td.saturating_add(commits[i].deleted);
        i = i + 1;
    }
    proof {
        assert(commits@.take(commits@.len() as int) =~= commits@);
    }
    (tf, ta, td)
}

/// Removing one commit from a sequence subtracts exactly its own triple
/// from the three totals.
proof fn lemma_totals_remove(s: Seq<Commit>, i: int)
    requires
        0 <= i < s.len(),
    ensures
        total_files(s.remove(i)) == total_files(s) - s[i].files_changed,
        total_added(s.remove(i)) == total_added(s) - s[i].added,
        total_deleted(s.remove(i)) == total_deleted(s) - s[i].deleted,
    decreases s.len(),
{
    if i == s.len() - 1 {
        assert(s.remove(i) =~= s.drop_last());
    } else {
        assert(s.remove(i).drop_last() =~= s.drop_last().remove(i));
        assert(s.remove(i).last() == s.last());
        lemma_totals_remove(s.drop_last(), i);
    }
}

/// The aggregator is order-independent: two sequences holding the same
/// commits with the same multiplicities — one a permutation of the other —
/// have equal totals.
pub proof fn lemma_totals_permutation(a: Seq<Commit>, b: Seq<Commit>)
    requires
        a.to_multiset() == b.to_multiset(),
    ensures
        total_files(a) == total_files(b),
        total_added(a) == total_added(b),
        total_deleted(a) == total_deleted(b),
    decreases a.len(),
{
    broadcast use vstd::seq_lib::group_to_multiset_ensures;

    assert(a.len() == a.to_multiset().len());
    assert(b.len() == b.to_multiset().len());
    if a.len() == 0 {
    } else {
        let x = a.last();
        let i = a.len() - 1;
        assert(a[i as int] == x);
        assert(a.contains(x));
        assert(b.to_multiset().count(x) > 0);
        assert(b.contains(x));
        let j = choose|j: int| 0 <= j < b.len() && b[j] == x;
        assert(a.remove(i as int).to_multiset() =~= a.to_multiset().remove(x));
        assert(b.remove(j).to_multiset() =~= b.to_multiset().remove(b[j]));
        assert(a.remove(i as int) =~= a.drop_last());
        lemma_totals_permutation(a.drop_last(), b.remove(j));
        lemma_totals_remove(a, i as int);
        lemma_totals_remove(b, j);
    }
}

/// A keyword with no matching commits leads to an empty commit sequence,
/// whose aggregate totals are all zero.
pub proof fn lemma_empty_totals(s: Seq<Commit>)
    requires
        s.len() == 0,
    ensures
        total_files(s) == 0,
        total_added(s) == 0,
        total_deleted(s) == 0,
{
}

} // verus!
