//! Textual block positions. A position is either a decimal block number,
//! or one of the keywords `last_committed` and `last_finalized`; anything
//! else is invalid input.

use vstd::prelude::*;
use vstd::string::StrSliceExecFns;
use crate::types::BlockNumber;

verus! {

/// A parsed block position, dispatched on by the query operations.
#[derive(Clone, Copy, Debug, PartialEq, Eq, Structural)]
pub enum BlockPosition {
    /// A concrete block number; resolved without any storage access.
    Numeric(BlockNumber),
    /// The number of the latest committed block, read at call time.
    LastCommitted,
    /// The number of the latest finalized block, read at call time.
    LastFinalized,
}

/// A decimal digit.
pub open spec fn is_digit_char(c: char) -> bool {
    '0' <= c && c <= '9'
}

/// The numeric value of one digit.
pub open spec fn digit_val(c: char) -> int {
    c as int - '0' as int
}

/// All characters are decimal digits.
pub open spec fn all_digits(s: Seq<char>) -> bool {
    forall|i: int| 0 <= i < s.len() ==> is_digit_char(s[i])
}

/// The value of a digit string read in base ten.
pub open spec fn dec_value(s: Seq<char>) -> int
    decreases s.len(),
{
    if s.len() == 0 {
        0
    } else {
        dec_value(s.drop_last()) * 10 + digit_val(s.last())
    }
}

/// The digits of a position string: a single leading `+` sign is allowed,
/// as the standard unsigned decimal parse accepts one.
pub open spec fn digits_of(s: Seq<char>) -> Seq<char> {
    if s.len() > 0 && s[0] == '+' {
        s.skip(1)
    } else {
        s
    }
}

/// The string parses as a block number: non-empty digits, value in `u32`.
pub open spec fn is_numeric_u32(s: Seq<char>) -> bool {
    let d = digits_of(s);
    d.len() > 0 && all_digits(d) && dec_value(d) <= u32::MAX
}

/// The number a numeric position string denotes.
pub open spec fn numeric_value(s: Seq<char>) -> int {
    dec_value(digits_of(s))
}

/// What parsing a position string yields, if anything.
pub open spec fn position_of(s: Seq<char>) -> Option<BlockPosition> {
    if is_numeric_u32(s) {
        Some(BlockPosition::Numeric(BlockNumber(numeric_value(s) as u32)))
    } else if s == "last_committed"@ {
        Some(BlockPosition::LastCommitted)
    } else if s == "last_finalized"@ {
        Some(BlockPosition::LastFinalized)
    } else {
        None
    }
}

/// A digit string is worth no less than any of its prefixes.
pub proof fn lemma_dec_value_take_le(d: Seq<char>, k: int)
    requires
        0 <= k <= d.len(),
        all_digits(d),
    ensures
        dec_value(d.take(k)) <= dec_value(d),
        dec_value(d.take(k)) >= 0,
    decreases d.len() - k,
{
    if k == d.len() {
        assert(d.take(k) =~= d);
        lemma_dec_value_nonneg(d);
    } else {
        lemma_dec_value_take_le(d, k + 1);
        lemma_dec_value_nonneg(d.take(k));
        assert(d.take(k + 1).drop_last() =~= d.take(k));
        assert(d.take(k + 1).last() == d[k]);
        assert(is_digit_char(d[k]));
    }
}

/// A digit string's value is non-negative.
pub proof fn lemma_dec_value_nonneg(d: Seq<char>)
    requires
        all_digits(d),
    ensures
        dec_value(d) >= 0,
    decreases d.len(),
{
    if d.len() > 0 {
        assert(all_digits(d.drop_last()));
        lemma_dec_value_nonneg(d.drop_last());
        assert(is_digit_char(d.last()));
    }
}

/// Parse a `u32` the way the standard decimal parse does: optional `+`,
/// then digits, rejecting anything else and any value beyond `u32`.
#[verifier::loop_isolation(false)]
pub fn parse_u32(s: &str) -> (r: Option<u32>)
    ensures
        is_numeric_u32(s@) ==> r == Some(numeric_value(s@) as u32),
        !is_numeric_u32(s@) ==> r is None,
{
    let len = s.unicode_len();
    let mut start: usize = 0;
    if len > 0 && s.get_char(0) == '+' {
        start = 1;
    }
    let ghost d = digits_of(s@);
    proof {
        assert(d =~= s@.skip(start as int));
    }
    if start >= len {
        return None;
    }
    let mut acc: u32 = 0;
    let mut i: usize = start;
    while i < len
        invariant
            start <= i <= len,
            all_digits(d.take(i - start)),
            acc == dec_value(d.take(i - start)),
        decreases len - i,
    {
        let c = s.get_char(i);
        if c < '0' || c > '9' {
            proof {
                assert(d[i - start] == s@[i as int]);
                assert(!is_digit_char(d[i - start]));
            }
            return None;
        }
        let digit: u32 = (c as u32) - 48;
        proof {
            assert(d.take(i - start + 1).drop_last() =~= d.take(i - start));
            assert(d.take(i - start + 1).last() == d[i - start]);
            assert(d[i - start] == s@[i as int]);
            assert(digit == digit_val(d[i - start]));
        }
        if acc > (u32::MAX - digit) / 10 {
            proof {
                assert(dec_value(d.take(i - start + 1)) == acc * 10 + digit);
                assert(acc * 10 + digit > u32::MAX) by (nonlinear_arith)
                    requires
                        acc > (u32::MAX - digit) / 10,
                        digit <= 9,
                {
                }
                if all_digits(d) && dec_value(d) <= u32::MAX {
                    lemma_dec_value_take_le(d, i - start + 1);
                }
            }
            return None;
        }
        proof {
            assert(acc * 10 + digit <= u32::MAX) by (nonlinear_arith)
                requires
                    acc <= (u32::MAX - digit) / 10,
                    digit <= 9,
            {
            }
        }
        acc = acc * 10 + digit;
        i = i + 1;
    }
    proof {
        assert(d.take(i - start) =~= d);
    }
    Some(acc)
}

/// Character-for-character string comparison.
#[verifier::loop_isolation(false)]
pub fn str_eq(a: &str, b: &str) -> (r: bool)
    ensures
        r == (a@ == b@),
{
    let alen = a.unicode_len();
    let blen = b.unicode_len();
    if alen != blen {
        return false;
    }
    let mut i: usize = 0;
    while i < alen
        invariant
            i <= alen,
            forall|k: int| 0 <= k < i ==> a@[k] == b@[k],
        decreases alen - i,
    {
        if a.get_char(i) != b.get_char(i) {
            return false;
        }
        i = i + 1;
    }
    proof {
        assert(a@ =~= b@);
    }
    true
}

/// Parse a position string into its variant, or nothing when it is
/// neither numeric nor a recognized keyword.
pub fn parse_block_position(s: &str) -> (r: Option<BlockPosition>)
    ensures
        r == position_of(s@),
{
    match parse_u32(s) {
        Some(n) => Some(BlockPosition::Numeric(BlockNumber(n))),
        None => {
            if str_eq(s, "last_committed") {
                Some(BlockPosition::LastCommitted)
            } else if str_eq(s, "last_finalized") {
                Some(BlockPosition::LastFinalized)
            } else {
                None
            }
        },
    }
}

} // verus!
