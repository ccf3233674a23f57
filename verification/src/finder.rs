//! The commit finder: a keyword and a merge-exclusion flag become a query,
//! and the query's reply becomes an ordered list of commit hashes.

use vstd::prelude::*;
use vstd::string::StringExecFns;
use crate::split::{runs, split_runs, views};

verus! {

/// The hashes carried by an engine reply: its non-empty lines, in the
/// reply's own (reverse-chronological) order.
pub open spec fn commit_hashes(out: Seq<char>) -> Seq<Seq<char>> {
    runs(out, true)
}

/// The engine query whose reply `parse_commit_list` reads: list the
/// hashes of the commits whose message matches the keyword, newest
/// first, leaving merge commits out when asked to.  Matching semantics
/// belong to the engine; the keyword is passed through verbatim.
pub fn build_log_args(keyword: &str, exclude_merge: bool) -> (r: Vec<String>)
    requires
        keyword@.len() > 0,
    ensures
        r@.len() == (if exclude_merge {
            4int
        } else {
            3int
        }),
        r@[0]@ == "log"@,
        r@[1]@ == "--grep="@ + keyword@,
        r@[2]@ == "--pretty=format:%H"@,
        exclude_merge ==> r@[3]@ == "--no-merges"@,
{
    let mut r: Vec<String> = Vec::new();
    r.push(String::from_str("log"));
    r.push(String::from_str("--grep=").concat(keyword));
    r.push(String::from_str("--pretty=format:%H"));
    if exclude_merge {
        r.push(String::from_str("--no-merges"));
    }
    r
}

/// CommitFinder: the ordered hashes of the matching commits, exactly as
/// the engine reported them — no reordering, and never an empty hash.
/// A reply with no matches yields the empty sequence; that is not an
/// error.
pub fn parse_commit_list(out: &str) -> (r: Vec<String>)
    ensures
        views(r@) == commit_hashes(out@),
        forall|i: int| 0 <= i < r@.len() ==> r@[i]@.len() > 0,
{
    split_runs(out, true)
}

/// The finder is idempotent: an unchanged repository answers the same
/// query with the same reply, and equal replies parse to equal ordered
/// hash sequences.
pub proof fn lemma_finder_idempotent(out1: Seq<char>, out2: Seq<char>)
    requires
        out1 == out2,
    ensures
        commit_hashes(out1) == commit_hashes(out2),
{
}

/// A keyword with zero matching commits gets an empty reply, which holds
/// no hashes: the finder returns the empty sequence (and the totals of
/// the empty pipeline are zero, see `stats::lemma_empty_totals`).
pub proof fn lemma_no_matches(out: Seq<char>)
    requires
        out.len() == 0,
    ensures
        commit_hashes(out).len() == 0,
{
}

} // verus!
