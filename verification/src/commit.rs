//! The commit record: one hash together with its line-change statistics.

use vstd::prelude::*;

verus! {

/// One commit, identified by its hash, with the number of files it touched
/// and the lines it added and deleted.
#[derive(Debug, Clone, PartialEq)]
pub struct Commit {
    pub commit_hash: String,
    pub files_changed: usize,
    pub added: usize,
    pub deleted: usize,
}

impl Commit {
    /// A commit produced by the pipeline always carries a non-empty hash.
    pub open spec fn wf(self) -> bool {
        self.commit_hash@.len() > 0
    }

    /// Build a commit record from a hash and its statistics triple.
    pub fn new(commit_hash: String, files_changed: usize, added: usize, deleted: usize) -> (r:
        Commit)
        ensures
            r.commit_hash == commit_hash,
            r.files_changed == files_changed,
            r.added == added,
            r.deleted == deleted,
    {
        Commit { commit_hash, files_changed, added, deleted }
    }
}

/// Pair each hash with the statistics triple computed for it, in the
/// finder's order: one commit record per hash, fields taken verbatim.
/// Hashes that are non-empty make well-formed commits.
pub fn build_commits(hashes: &Vec<String>, triples: &Vec<(usize, usize, usize)>) -> (r: Vec<
    Commit>)
    requires
        hashes@.len() == triples@.len(),
    ensures
        r@.len() == hashes@.len(),
        forall|i: int|
            0 <= i < r@.len() ==> {
                &&& (#[trigger] r@[i]).commit_hash@ == hashes@[i]@
                &&& r@[i].files_changed == triples@[i].0
                &&& r@[i].added == triples@[i].1
                &&& r@[i].deleted == triples@[i].2
            },
        (forall|i: int| 0 <= i < hashes@.len() ==> (#[trigger] hashes@[i])@.len() > 0)
            ==> forall|i: int| 0 <= i < r@.len() ==> (#[trigger] r@[i]).wf(),
{
    let mut r: Vec<Commit> = Vec::new();
    let mut i: usize = 0;
    while i < hashes.len()
        invariant
            0 <= i <= hashes@.len(),
            hashes@.len() == triples@.len(),
            r@.len() == i,
            forall|k: int|
                0 <= k < i ==> {
                    &&& (#[trigger] r@[k]).commit_hash@ == hashes@[k]@
                    &&& r@[k].files_changed == triples@[k].0
                    &&& r@[k].added == triples@[k].1
                    &&& r@[k].deleted == triples@[k].2
                },
        decreases hashes@.len() - i,
    {
        let hash = hashes[i].clone();
        let (files_changed, added, deleted) = triples[i];
        r.push(Commit { commit_hash: hash, files_changed, added, deleted });
        i = i + 1;
    }
    r
}

} // verus!
