//! Splitting query output into lines, and one record into fields.
//!
//! Both CommitFinder and DiffAnalyzer read newline-separated engine
//! output; DiffAnalyzer further splits each record at whitespace.  Both
//! splits are the same operation: take the maximal non-empty
//! separator-free segments of the text, in order.

use vstd::prelude::*;
use vstd::string::StrSliceExecFns;

verus! {

/// Separator test: line splitting stops only at a newline; field
/// splitting stops at any ASCII whitespace character.
pub open spec fn is_sep(c: char, newline_only: bool) -> bool {
    if newline_only {
        c == '\n'
    } else {
        c == ' ' || c == '\t' || c == '\r' || c == '\n' || c == '\x0C'
    }
}

/// The maximal non-empty separator-free segments of `s`, in order.
/// Empty segments between consecutive separators do not appear.
pub open spec fn runs(s: Seq<char>, newline_only: bool) -> Seq<Seq<char>>
    decreases s.len(),
{
    if s.len() == 0 {
        Seq::empty()
    } else {
        let rest = runs(s.drop_last(), newline_only);
        let c = s.last();
        if is_sep(c, newline_only) {
            rest
        } else if s.len() >= 2 && !is_sep(s[s.len() - 2], newline_only) {
            rest.update(rest.len() - 1, rest.last().push(c))
        } else {
            rest.push(seq![c])
        }
    }
}

/// The character sequences behind a sequence of strings.
pub open spec fn views(strs: Seq<String>) -> Seq<Seq<char>> {
    Seq::new(strs.len(), |i: int| strs[i]@)
}

/// Every segment produced by `runs` is non-empty.
pub proof fn lemma_runs_nonempty(s: Seq<char>, newline_only: bool)
    ensures
        forall|i: int|
            0 <= i < runs(s, newline_only).len() ==> runs(s, newline_only)[i].len() > 0,
        s.len() > 0 && !is_sep(s.last(), newline_only) ==> runs(s, newline_only).len() > 0,
    decreases s.len(),
{
    if s.len() == 0 {
    } else {
        lemma_runs_nonempty(s.drop_last(), newline_only);
        let rest = runs(s.drop_last(), newline_only);
        let c = s.last();
        if is_sep(c, newline_only) {
        } else if s.len() >= 2 && !is_sep(s[s.len() - 2], newline_only) {
            assert(s.drop_last().len() > 0);
            assert(s.drop_last().last() == s[s.len() - 2]);
            assert(rest.len() > 0);
            let upd = rest.update(rest.len() - 1, rest.last().push(c));
            assert(forall|i: int| 0 <= i < upd.len() - 1 ==> upd[i] == rest[i]);
            assert(upd.last() == rest.last().push(c));
            assert(upd.last().len() > 0);
        } else {
            let ext = rest.push(seq![c]);
            assert(forall|i: int| 0 <= i < ext.len() - 1 ==> ext[i] == rest[i]);
            assert(ext.last() == seq![c]);
        }
    }
}

/// The still-open segment of a left-to-right scan: the characters from
/// `start` to the scan position, if any.
spec fn pending(s: Seq<char>, start: int, i: int) -> Seq<Seq<char>> {
    if start < i {
        seq![s.subrange(start, i)]
    } else {
        Seq::<Seq<char>>::empty()
    }
}

/// Split `s` into its maximal separator-free segments, as owned strings.
pub fn split_runs(s: &str, newline_only: bool) -> (r: Vec<String>)
    ensures
        views(r@) == runs(s@, newline_only),
        forall|i: int| 0 <= i < r@.len() ==> r@[i]@.len() > 0,
{
    let n = s.unicode_len();
    let mut r: Vec<String> = Vec::new();
    let mut start: usize = 0;
    let mut i: usize = 0;
    while i < n
        invariant
            start <= i <= n,
            n == s@.len(),
            forall|k: int| start <= k < i ==> !is_sep(s@[k], newline_only),
            start == 0 || is_sep(s@[start - 1], newline_only),
            runs(s@.take(i as int), newline_only) == views(r@) + pending(
                s@,
                start as int,
                i as int,
            ),
        decreases n - i,
    {
        let c = s.get_char(i);
        let sep = if newline_only {
            c == '\n'
        } else {
            c == ' ' || c == '\t' || c == '\r' || c == '\n' || c == '\x0C'
        };
        proof {
            assert(s@.take(i + 1).drop_last() =~= s@.take(i as int));
            assert(s@.take(i + 1).last() == s@[i as int]);
        }
        if sep {
            assert(runs(s@.take(i + 1), newline_only) == runs(s@.take(i as int), newline_only));
            if start < i {
                let run = s.substring_char(start, i);
                let ghost r0 = r@;
                r.push(run.to_owned());
                proof {
                    assert(views(r@) =~= views(r0).push(s@.subrange(start as int, i as int)));
                    assert(views(r0) + pending(s@, start as int, i as int) =~= views(r@));
                }
            }
            start = i + 1;
            proof {
                assert(views(r@) + pending(s@, start as int, i + 1) =~= views(r@));
            }
        } else {
            if start < i {
                proof {
                    let rest = runs(s@.take(i as int), newline_only);
                    assert(rest == views(r@) + pending(s@, start as int, i as int));
                    assert(rest.len() == views(r@).len() + 1);
                    assert(rest.last() == s@.subrange(start as int, i as int));
                    assert(s@.take(i + 1)[i - 1] == s@[i - 1]);
                    assert(!is_sep(s@[i - 1], newline_only));
                    assert(runs(s@.take(i + 1), newline_only) == rest.update(
                        rest.len() - 1,
                        rest.last().push(s@[i as int]),
                    ));
                    assert(s@.subrange(start as int, i as int).push(s@[i as int]) =~= s@.subrange(
                        start as int,
                        i + 1,
                    ));
                    assert(rest.update(rest.len() - 1, s@.subrange(start as int, i + 1)) =~= views(
                        r@,
                    ) + pending(s@, start as int, i + 1));
                }
            } else {
                proof {
                    let rest = runs(s@.take(i as int), newline_only);
                    assert(rest =~= views(r@));
                    if i > 0 {
                        assert(is_sep(s@.take(i + 1)[i - 1], newline_only));
                    }
                    assert(runs(s@.take(i + 1), newline_only) == rest.push(seq![s@[i as int]]));
                    assert(seq![s@[i as int]] =~= s@.subrange(start as int, i + 1));
                    assert(rest.push(s@.subrange(start as int, i + 1)) =~= views(r@) + pending(
                        s@,
                        start as int,
                        i + 1,
                    ));
                }
            }
        }
        i = i + 1;
    }
    proof {
        assert(s@.take(n as int) =~= s@);
    }
    if start < n {
        let run = s.substring_char(start, n);
        let ghost r0 = r@;
        r.push(run.to_owned());
        proof {
            assert(views(r@) =~= views(r0).push(s@.subrange(start as int, n as int)));
            assert(views(r0) + pending(s@, start as int, n as int) =~= views(r@));
        }
    } else {
        proof {
            assert(views(r@) + pending(s@, start as int, n as int) =~= views(r@));
        }
    }
    proof {
        lemma_runs_nonempty(s@, newline_only);
        assert forall|i: int| 0 <= i < r@.len() implies r@[i]@.len() > 0 by {
            assert(views(r@)[i] == r@[i]@);
        }
    }
    r
}

} // verus!
