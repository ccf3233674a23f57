//! Lenient numeric parsing of a record field.
//!
//! A leading field of a change record is taken as a non-negative decimal
//! integer; anything that is not one — a binary-file marker, a malformed
//! count, a value beyond the machine range — counts as zero rather than
//! as an error.

use vstd::prelude::*;
use vstd::string::StrSliceExecFns;

verus! {

/// An ASCII decimal digit.
pub open spec fn is_digit(c: char) -> bool {
    48 <= c as u32 <= 57
}

/// The numeric value of a digit; zero for any other character.
pub open spec fn digit_val(c: char) -> nat {
    if is_digit(c) {
        (c as u32 - 48) as nat
    } else {
        0
    }
}

/// Every character of `s` is a decimal digit.
pub open spec fn all_digits(s: Seq<char>) -> bool {
    forall|i: int| 0 <= i < s.len() ==> is_digit(s[i])
}

/// The value of `s` read as a decimal numeral, most significant digit
/// first.
pub open spec fn dec_val(s: Seq<char>) -> nat
    decreases s.len(),
{
    if s.len() == 0 {
        0
    } else {
        (dec_val(s.drop_last()) * 10 + digit_val(s.last())) as nat
    }
}

/// A well-formed count: a non-empty all-digit numeral within machine
/// range.
pub open spec fn numeral_ok(s: Seq<char>) -> bool {
    s.len() > 0 && all_digits(s) && dec_val(s) <= usize::MAX as nat
}

/// What a field contributes to a statistic in lenient mode: its decimal
/// value when it is a well-formed count, and zero otherwise.
pub open spec fn field_value(s: Seq<char>) -> nat {
    if numeral_ok(s) {
        dec_val(s)
    } else {
        0
    }
}

/// A numeral is at least as large as any of its prefixes.
proof fn lemma_dec_val_prefix(s: Seq<char>, i: int)
    requires
        0 <= i <= s.len(),
    ensures
        dec_val(s) >= dec_val(s.take(i)),
    decreases s.len(),
{
    if i == s.len() {
        assert(s.take(i) =~= s);
    } else {
        assert(s.drop_last().take(i) =~= s.take(i));
        lemma_dec_val_prefix(s.drop_last(), i);
    }
}

/// Read one record field strictly: its decimal value, or nothing when
/// the field is not a well-formed count.
pub fn parse_field_checked(f: &str) -> (r: Option<usize>)
    ensures
        match r {
            Some(v) => numeral_ok(f@) && v as nat == dec_val(f@),
            None => !numeral_ok(f@),
        },
{
    let n = f.unicode_len();
    if n == 0 {
        return None;
    }
    let mut acc: usize = 0;
    let mut i: usize = 0;
    while i < n
        invariant
            0 <= i <= n,
            n == f@.len(),
            all_digits(f@.take(i as int)),
            acc as nat == dec_val(f@.take(i as int)),
        decreases n - i,
    {
        let c = f.get_char(i);
        let u = c as u32;
        proof {
            assert(f@.take(i + 1).drop_last() =~= f@.take(i as int));
            assert(f@.take(i + 1).last() == f@[i as int]);
        }
        if u < 48 || u > 57 {
            proof {
                assert(!is_digit(f@[i as int]));
                assert(!all_digits(f@));
            }
            return None;
        }
        let d = (u - 48) as usize;
        let next = match acc.checked_mul(10) {
            Some(m) => m.checked_add(d),
            None => None,
        };
        match next {
            Some(v) => {
                acc = v;
            },
            None => {
                proof {
                    assert(dec_val(f@.take(i + 1)) > usize::MAX as nat);
                    lemma_dec_val_prefix(f@, i + 1);
                    assert(dec_val(f@) > usize::MAX as nat);
                }
                return None;
            },
        }
        i = i + 1;
    }
    proof {
        assert(f@.take(n as int) =~= f@);
    }
    Some(acc)
}

/// Read one record field leniently: its decimal value, or zero when the
/// field is not a well-formed count.
pub fn parse_field(f: &str) -> (r: usize)
    ensures
        r as nat == field_value(f@),
{
    match parse_field_checked(f) {
        Some(v) => v,
        None => 0,
    }
}

} // verus!
