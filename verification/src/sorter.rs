//! The sorter: reorder commits by added lines, descending, stably.
//!
//! Stability is stated through `with_added`: for every `added` count the
//! subsequence of commits carrying it is the same, in the same order,
//! before and after sorting — ties are never reordered.

use vstd::prelude::*;
use crate::commit::Commit;

verus! {

broadcast use vstd::seq_lib::group_to_multiset_ensures;

/// Holds of the commits whose `added` count is exactly `v`.
pub open spec fn added_is(v: usize) -> spec_fn(Commit) -> bool {
    |c: Commit| c.added == v
}

/// The subsequence of `s` whose `added` count is `v`, in `s`'s order.
pub open spec fn with_added(s: Seq<Commit>, v: usize) -> Seq<Commit> {
    s.filter(added_is(v))
}

/// Non-increasing in `added`.
pub open spec fn sorted_by_added_desc(s: Seq<Commit>) -> bool {
    forall|i: int, j: int| 0 <= i < j < s.len() ==> s[i].added >= s[j].added
}

/// Filtering a one-commit sequence keeps it or empties it.
proof fn lemma_filter_singleton(x: Commit, p: spec_fn(Commit) -> bool)
    ensures
        seq![x].filter(p) == if p(x) {
            seq![x]
        } else {
            Seq::<Commit>::empty()
        },
{
    reveal_with_fuel(Seq::<Commit>::filter, 3);
    let s = seq![x];
    assert(s.drop_last() =~= Seq::<Commit>::empty());
    assert(Seq::<Commit>::empty().filter(p) =~= Seq::<Commit>::empty());
    assert(s.last() == x);
    if p(x) {
        assert(s.filter(p) == Seq::<Commit>::empty().push(x));
        assert(Seq::<Commit>::empty().push(x) =~= s);
    }
}

/// Two adjacent commits of which at most one matches may trade places
/// without changing the filtered subsequence.
proof fn lemma_filter_pair_swap(a: Commit, b: Commit, p: spec_fn(Commit) -> bool)
    requires
        !(p(a) && p(b)),
    ensures
        seq![a, b].filter(p) == seq![b, a].filter(p),
{
    reveal_with_fuel(Seq::<Commit>::filter, 3);
    lemma_filter_singleton(a, p);
    lemma_filter_singleton(b, p);
    let ab = seq![a, b];
    let ba = seq![b, a];
    assert(ab.drop_last() =~= seq![a]);
    assert(ba.drop_last() =~= seq![b]);
    assert(ab.last() == b);
    assert(ba.last() == a);
    if p(a) {
        assert(ab.filter(p) == seq![a]);
        assert(ba.filter(p) == Seq::<Commit>::empty().push(a));
        assert(Seq::<Commit>::empty().push(a) =~= seq![a]);
    } else if p(b) {
        assert(ab.filter(p) == seq![a].filter(p).push(b));
        assert(Seq::<Commit>::empty().push(b) =~= seq![b]);
        assert(ba.filter(p) == seq![b]);
    } else {
        assert(ab.filter(p) == seq![a].filter(p));
        assert(ba.filter(p) == seq![b].filter(p));
    }
}

/// Swapping two adjacent commits with different `added` counts changes
/// no `with_added` subsequence.
proof fn lemma_swap_preserves_classes(s: Seq<Commit>, t: Seq<Commit>, j: int)
    requires
        0 <= j,
        j + 1 < s.len(),
        t.len() == s.len(),
        t[j] == s[j + 1],
        t[j + 1] == s[j],
        forall|k: int| 0 <= k < s.len() && k != j && k != j + 1 ==> t[k] == s[k],
        s[j].added != s[j + 1].added,
    ensures
        forall|v: usize| with_added(t, v) == with_added(s, v),
{
    let pre = s.take(j);
    let suf = s.skip(j + 2);
    let ab = seq![s[j], s[j + 1]];
    let ba = seq![s[j + 1], s[j]];
    assert(s =~= pre + ab + suf);
    assert(t =~= pre + ba + suf);
    assert forall|v: usize| with_added(t, v) == with_added(s, v) by {
        let p = added_is(v);
        assert(p(s[j]) == (s[j].added == v));
        assert(p(s[j + 1]) == (s[j + 1].added == v));
        Seq::<Commit>::filter_distributes_over_add(pre, ab, p);
        Seq::<Commit>::filter_distributes_over_add(pre + ab, suf, p);
        Seq::<Commit>::filter_distributes_over_add(pre, ba, p);
        Seq::<Commit>::filter_distributes_over_add(pre + ba, suf, p);
        lemma_filter_pair_swap(s[j], s[j + 1], p);
        assert(with_added(s, v) == (pre.filter(p) + ab.filter(p)) + suf.filter(p));
        assert(with_added(t, v) == (pre.filter(p) + ba.filter(p)) + suf.filter(p));
    }
}

/// Sorter: a new ordering of the same commits, by `added` descending,
/// stable: every `with_added` subsequence — the commits tied at one
/// `added` count, in their relative order — is exactly that of the
/// input.  No commit is altered, added or dropped.
pub fn sort_commits(commits: Vec<Commit>) -> (r: Vec<Commit>)
    ensures
        r@.len() == commits@.len(),
        sorted_by_added_desc(r@),
        r@.to_multiset() == commits@.to_multiset(),
        forall|v: usize| with_added(r@, v) == with_added(commits@, v),
{
    broadcast use vstd::seq_lib::group_to_multiset_ensures;

    let mut v = commits;
    let ghost orig = v@;
    if v.len() <= 1 {
        return v;
    }
    let mut i: usize = 1;
    while i < v.len()
        invariant
            1 <= i <= v@.len(),
            v@.len() == orig.len(),
            sorted_by_added_desc(v@.take(i as int)),
            v@.to_multiset() == orig.to_multiset(),
            forall|val: usize| with_added(v@, val) == with_added(orig, val),
        decreases v@.len() - i,
    {
        proof {
            assert forall|k1: int, k2: int| 0 <= k1 < k2 <= i && k2 != i implies v@[k1].added
                >= v@[k2].added by {
                assert(v@.take(i as int)[k1] == v@[k1]);
                assert(v@.take(i as int)[k2] == v@[k2]);
            }
        }
        let mut j: usize = i;
        while j > 0 && v[j - 1].added < v[j].added
            invariant
                0 <= j <= i < v@.len(),
                v@.len() == orig.len(),
                v@.to_multiset() == orig.to_multiset(),
                forall|val: usize| with_added(v@, val) == with_added(orig, val),
                forall|k1: int, k2: int|
                    0 <= k1 < k2 <= i && k2 != j ==> v@[k1].added >= v@[k2].added,
                forall|k: int| j < k <= i ==> v@[j as int].added > v@[k].added,
            decreases j,
        {
            let ghost s0 = v@;
            let x = v.remove(j);
            v.insert(j - 1, x);
            proof {
                let t = v@;
                assert(t.len() == s0.len());
                assert(t[j - 1] == s0[j as int]);
                assert(t[j as int] == s0[j - 1]);
                assert(forall|k: int|
                    0 <= k < s0.len() && k != j - 1 && k != j ==> t[k] == s0[k]);
                lemma_swap_preserves_classes(s0, t, j - 1);
                assert(s0.remove(j as int).to_multiset() == s0.to_multiset().remove(
                    s0[j as int],
                ));
                assert(t == s0.remove(j as int).insert(j - 1, x));
                assert(s0.remove(j as int).insert(j - 1, x).to_multiset() == s0.remove(
                    j as int,
                ).to_multiset().insert(x));
                assert(s0.contains(s0[j as int]));
                assert(s0.to_multiset().count(s0[j as int]) > 0);
                assert(s0.to_multiset().remove(s0[j as int]).insert(s0[j as int])
                    =~= s0.to_multiset());
            }
            j = j - 1;
        }
        proof {
            assert forall|k1: int, k2: int| 0 <= k1 < k2 < i + 1 implies v@[k1].added
                >= v@[k2].added by {
                if k2 == j {
                    assert(v@[j - 1].added >= v@[j as int].added);
                    if k1 < j - 1 {
                        assert(v@[k1].added >= v@[j - 1].added);
                    }
                }
            }
            assert(sorted_by_added_desc(v@.take(i + 1)));
        }
        i = i + 1;
    }
    proof {
        assert(v@.take(v@.len() as int) =~= v@);
    }
    v
}

} // verus!
