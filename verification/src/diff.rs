//! The diff analyzer: per-commit change statistics from the engine's
//! per-file records.
//!
//! The engine reports one record per touched file, nominally
//! `<added> <deleted> <path>`.  A record with at least three
//! whitespace-separated fields counts one file and contributes its first
//! two fields, read leniently, to the added and deleted totals; a shorter
//! record is skipped entirely.

use vstd::prelude::*;
use vstd::string::StringExecFns;
use crate::digits::{field_value, numeral_ok, parse_field, parse_field_checked};
use crate::split::{runs, split_runs, views};
use crate::stats::capped;

verus! {

/// The whitespace-separated fields of one record.
pub open spec fn record_fields(line: Seq<char>) -> Seq<Seq<char>> {
    runs(line, false)
}

/// How many files one record counts: one for a well-formed record,
/// none for a skipped one.
pub open spec fn record_files(line: Seq<char>) -> nat {
    if record_fields(line).len() >= 3 {
        1
    } else {
        0
    }
}

/// The added lines one record contributes.
pub open spec fn record_added(line: Seq<char>) -> nat {
    if record_fields(line).len() >= 3 {
        field_value(record_fields(line)[0])
    } else {
        0
    }
}

/// The deleted lines one record contributes.
pub open spec fn record_deleted(line: Seq<char>) -> nat {
    if record_fields(line).len() >= 3 {
        field_value(record_fields(line)[1])
    } else {
        0
    }
}

/// Files counted over a sequence of records.
pub open spec fn sum_files(lines: Seq<Seq<char>>) -> nat
    decreases lines.len(),
{
    if lines.len() == 0 {
        0
    } else {
        (sum_files(lines.drop_last()) + record_files(lines.last())) as nat
    }
}

/// Added lines summed over a sequence of records.
pub open spec fn sum_added(lines: Seq<Seq<char>>) -> nat
    decreases lines.len(),
{
    if lines.len() == 0 {
        0
    } else {
        (sum_added(lines.drop_last()) + record_added(lines.last())) as nat
    }
}

/// Deleted lines summed over a sequence of records.
pub open spec fn sum_deleted(lines: Seq<Seq<char>>) -> nat
    decreases lines.len(),
{
    if lines.len() == 0 {
        0
    } else {
        (sum_deleted(lines.drop_last()) + record_deleted(lines.last())) as nat
    }
}

/// The statistics of a whole per-commit reply: its records are its
/// non-empty lines.
pub open spec fn diff_files(out: Seq<char>) -> nat {
    sum_files(runs(out, true))
}

/// Added lines of a whole per-commit reply.
pub open spec fn diff_added(out: Seq<char>) -> nat {
    sum_added(runs(out, true))
}

/// Deleted lines of a whole per-commit reply.
pub open spec fn diff_deleted(out: Seq<char>) -> nat {
    sum_deleted(runs(out, true))
}

/// The engine query whose reply `analyze_diff_output` reads: show the
/// given commit with per-file numeric change records and no message
/// header.
pub fn build_show_args(hash: &str) -> (r: Vec<String>)
    ensures
        r@.len() == 4,
        r@[0]@ == "show"@,
        r@[1]@ == hash@,
        r@[2]@ == "--pretty=format:"@,
        r@[3]@ == "--numstat"@,
{
    let mut r: Vec<String> = Vec::new();
    r.push(String::from_str("show"));
    r.push(hash.to_owned());
    r.push(String::from_str("--pretty=format:"));
    r.push(String::from_str("--numstat"));
    r
}

/// DiffAnalyzer: turn one commit's per-file records into the triple
/// `(files_changed, added, deleted)`.  A reply with no records — a commit
/// touching no files — yields `(0, 0, 0)`.  The result is a pure function
/// of the reply text; sums beyond the machine range saturate at
/// `usize::MAX`.
pub fn analyze_diff_output(out: &str) -> (r: (usize, usize, usize))
    ensures
        r.0 as nat == capped(diff_files(out@)),
        r.1 as nat == capped(diff_added(out@)),
        r.2 as nat == capped(diff_deleted(out@)),
{
    let lines = split_runs(out, true);
    let ghost ls = runs(out@, true);
    let mut files: usize = 0;
    let mut added: usize = 0;
    let mut deleted: usize = 0;
    let mut i: usize = 0;
    while i < lines.len()
        invariant
            views(lines@) == ls,
            ls == runs(out@, true),
            0 <= i <= lines@.len(),
            files as nat == capped(sum_files(ls.take(i as int))),
            added as nat == capped(sum_added(ls.take(i as int))),
            deleted as nat == capped(sum_deleted(ls.take(i as int))),
        decreases lines@.len() - i,
    {
        proof {
            assert(lines@[i as int]@ == views(lines@)[i as int]);
            assert(ls.take(i + 1).drop_last() =~= ls.take(i as int));
            assert(ls.take(i + 1).last() == ls[i as int]);
        }
        let fields = split_runs(lines[i].as_str(), false);
        proof {
            assert(views(fields@).len() == fields@.len());
            assert(record_fields(ls[i as int]) == views(fields@));
        }
        if fields.len() >= 3 {
            proof {
                assert(views(fields@)[0] == fields@[0]@);
                assert(views(fields@)[1] == fields@[1]@);
            }
            let a = parse_field(fields[0].as_str());
            let d = parse_field(fields[1].as_str());
            files = files.saturating_add(1);
            added = added.saturating_add(a);
            deleted = deleted.saturating_add(d);
        }
        i = i + 1;
    }
    proof {
        assert(ls.take(lines@.len() as int) =~= ls);
    }
    (files, added, deleted)
}

/// A record that strict parsing rejects: it has enough fields to be a
/// change record, but a leading field is not a well-formed count.  The
/// lenient analyzer silently counts such a field as zero.
pub open spec fn record_malformed(line: Seq<char>) -> bool {
    record_fields(line).len() >= 3 && (!numeral_ok(record_fields(line)[0]) || !numeral_ok(
        record_fields(line)[1],
    ))
}

/// Strict mode's complaint: the index, among the reply's records, of the
/// first record whose leading fields are not well-formed counts.
#[derive(Debug, PartialEq, Eq, Structural)]
pub struct ParseError {
    pub record: usize,
}

/// DiffAnalyzer, strict mode: as `analyze_diff_output`, except that a
/// malformed record is reported as an error naming the first offender
/// instead of being silently counted as zero.  On a reply free of
/// malformed records the two modes agree exactly.
pub fn analyze_diff_output_strict(out: &str) -> (r: Result<(usize, usize, usize), ParseError>)
    ensures
        match r {
            Ok(t) => {
                &&& forall|k: int|
                    0 <= k < runs(out@, true).len() ==> !record_malformed(runs(out@, true)[k])
                &&& t.0 as nat == capped(diff_files(out@))
                &&& t.1 as nat == capped(diff_added(out@))
                &&& t.2 as nat == capped(diff_deleted(out@))
            },
            Err(e) => {
                &&& 0 <= e.record < runs(out@, true).len()
                &&& record_malformed(runs(out@, true)[e.record as int])
                &&& forall|k: int| 0 <= k < e.record ==> !record_malformed(runs(out@, true)[k])
            },
        },
{
    let lines = split_runs(out, true);
    let ghost ls = runs(out@, true);
    let mut files: usize = 0;
    let mut added: usize = 0;
    let mut deleted: usize = 0;
    let mut i: usize = 0;
    while i < lines.len()
        invariant
            views(lines@) == ls,
            ls == runs(out@, true),
            0 <= i <= lines@.len(),
            forall|k: int| 0 <= k < i ==> !record_malformed(ls[k]),
            files as nat == capped(sum_files(ls.take(i as int))),
            added as nat == capped(sum_added(ls.take(i as int))),
            deleted as nat == capped(sum_deleted(ls.take(i as int))),
        decreases lines@.len() - i,
    {
        proof {
            assert(lines@[i as int]@ == views(lines@)[i as int]);
            assert(ls.take(i + 1).drop_last() =~= ls.take(i as int));
            assert(ls.take(i + 1).last() == ls[i as int]);
        }
        let fields = split_runs(lines[i].as_str(), false);
        proof {
            assert(record_fields(ls[i as int]) == views(fields@));
        }
        if fields.len() >= 3 {
            proof {
                assert(views(fields@)[0] == fields@[0]@);
                assert(views(fields@)[1] == fields@[1]@);
            }
            let a = match parse_field_checked(fields[0].as_str()) {
                Some(v) => v,
                None => {
                    return Err(ParseError { record: i });
                },
            };
            let d = match parse_field_checked(fields[1].as_str()) {
                Some(v) => v,
                None => {
                    return Err(ParseError { record: i });
                },
            };
            files = files.saturating_add(1);
            added = added.saturating_add(a);
            deleted = deleted.saturating_add(d);
        }
        i = i + 1;
    }
    proof {
        assert(ls.take(lines@.len() as int) =~= ls);
    }
    Ok((files, added, deleted))
}

/// The analyzer is a pure function of the reply text alone: equal
/// per-commit replies carry equal statistics, whatever commit they came
/// from and whenever they were read.
pub proof fn lemma_analyzer_pure(out1: Seq<char>, out2: Seq<char>)
    requires
        out1 == out2,
    ensures
        diff_files(out1) == diff_files(out2),
        diff_added(out1) == diff_added(out2),
        diff_deleted(out1) == diff_deleted(out2),
{
}

} // verus!
