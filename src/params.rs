//! Values of query-string filters (`.field=value`) as filter literals:
//! `true`, `false`, unsigned integers, and unsigned numbers with a
//! fractional part.

use vstd::prelude::*;
use crate::filter::Literal;

verus! {

pub open spec fn is_digit(b: u8) -> bool {
    48 <= b <= 57
}

pub open spec fn all_digits(s: Seq<u8>) -> bool {
    forall|i: int| 0 <= i < s.len() ==> is_digit(#[trigger] s[i])
}

/// The decimal number written by the digits `s`.
pub open spec fn digits_value(s: Seq<u8>) -> int
    decreases s.len(),
{
    if s.len() == 0 {
        0
    } else {
        digits_value(s.drop_last()) * 10 + (s.last() - 48)
    }
}

/// A non-empty run of digits whose value fits `max`.
pub open spec fn digits_within(s: Seq<u8>, max: int) -> bool {
    s.len() > 0 && all_digits(s) && digits_value(s) <= max
}

/// The literal written by `s`, if it is one.
pub open spec fn parse_value_spec(s: Seq<u8>) -> Option<Literal> {
    if s == seq![116u8, 114u8, 117u8, 101u8] {
        Some(Literal::Bool(true))
    } else if s == seq![102u8, 97u8, 108u8, 115u8, 101u8] {
        Some(Literal::Bool(false))
    } else if all_digits(s) {
        if digits_within(s, i64::MAX as int) {
            Some(Literal::Int(digits_value(s) as i64))
        } else {
            None
        }
    } else if exists|k: int| 0 <= k < s.len() && s[k] == 46u8 {
        let k = choose|k: int| 0 <= k < s.len() && s[k] == 46u8;
        let whole = s.subrange(0, k);
        let frac = s.subrange(k + 1, s.len() as int);
        if digits_within(whole, i64::MAX as int) && digits_within(frac, u64::MAX as int) {
            Some(Literal::Frac { whole: digits_value(whole) as i64, frac: digits_value(frac) as u64 })
        } else {
            None
        }
    } else {
        None
    }
}

proof fn lemma_digits_monotone(s: Seq<u8>, i: int)
    requires
        all_digits(s),
        0 <= i <= s.len(),
    ensures
        0 <= digits_value(s.subrange(0, i)) <= digits_value(s),
    decreases s.len(),
{
    if i < s.len() {
        assert(all_digits(s.drop_last()));
        lemma_digits_monotone(s.drop_last(), i);
        assert(s.drop_last().subrange(0, i) == s.subrange(0, i));
        assert(is_digit(s[s.len() - 1]));
    } else {
        assert(s.subrange(0, i) == s);
        if s.len() > 0 {
            assert(all_digits(s.drop_last()));
            lemma_digits_monotone(s.drop_last(), i - 1);
            assert(s.drop_last().subrange(0, i - 1) == s.drop_last());
            assert(is_digit(s[s.len() - 1]));
        }
    }
}

/// The value of the digits `s[lo..hi]`, when they are a non-empty run of
/// digits that fits a `u64`.
fn digits_u64(s: &[u8], lo: usize, hi: usize) -> (r: Option<u64>)
    requires
        lo <= hi <= s@.len(),
    ensures
        match r {
            Some(v) => digits_within(s@.subrange(lo as int, hi as int), u64::MAX as int) && v == digits_value(
                s@.subrange(lo as int, hi as int),
            ),
            None => !digits_within(s@.subrange(lo as int, hi as int), u64::MAX as int),
        },
{
    let ghost t = s@.subrange(lo as int, hi as int);
    if lo == hi {
        return None;
    }
    let mut v: u64 = 0;
    let mut i: usize = lo;
    while i < hi
        invariant
            lo <= i <= hi <= s@.len(),
            t == s@.subrange(lo as int, hi as int),
            all_digits(t.subrange(0, i - lo)),
            v == digits_value(t.subrange(0, i - lo)),
        decreases hi - i,
    {
        let b = s[i];
        assert(t.subrange(0, i - lo + 1).drop_last() == t.subrange(0, i - lo));
        assert(t[i - lo] == b);
        if b < 48 || b > 57 {
            assert(!all_digits(t));
            return None;
        }
        let d = (b - 48) as u64;
        if v > 1844674407370955161 || (v == 1844674407370955161 && d > 5) {
            proof {
                if all_digits(t) {
                    lemma_digits_monotone(t, i - lo + 1);
                }
            }
            return None;
        }
        v = v * 10 + d;
        i = i + 1;
    }
    assert(t.subrange(0, hi - lo) == t);
    Some(v)
}

/// Reads the value of a query-string filter.
pub fn parse_filter_value(s: &[u8]) -> (r: Option<Literal>)
    ensures
        r == parse_value_spec(s@),
{
    let n = s.len();
    if n == 4 && s[0] == 116u8 && s[1] == 114u8 && s[2] == 117u8 && s[3] == 101u8 {
        assert(s@ == seq![116u8, 114u8, 117u8, 101u8]);
        return Some(Literal::Bool(true));
    }
    if n == 5 && s[0] == 102u8 && s[1] == 97u8 && s[2] == 108u8 && s[3] == 115u8 && s[4] == 101u8 {
        assert(s@ == seq![102u8, 97u8, 108u8, 115u8, 101u8]);
        return Some(Literal::Bool(false));
    }
    proof {
        if s@ == seq![116u8, 114u8, 117u8, 101u8] {
            assert(s@[0] == 116u8);
        }
        if s@ == seq![102u8, 97u8, 108u8, 115u8, 101u8] {
            assert(s@[0] == 102u8);
        }
    }
    let mut k: usize = 0;
    while k < n && s[k] != 46u8
        invariant
            n == s@.len(),
            k <= n,
            forall|j: int| 0 <= j < k ==> s@[j] != 46u8,
        decreases n - k,
    {
        k = k + 1;
    }
    if k == n {
        assert(s@.subrange(0, n as int) == s@);
        proof {
            if all_digits(s@) && s@.len() > 0 {
                assert(is_digit(s@[0]));
            }
        }
        return match digits_u64(s, 0, n) {
            Some(v) => if v <= 9223372036854775807u64 {
                Some(Literal::Int(v as i64))
            } else {
                None
            },
            None => None,
        };
    }
    assert(s@[k as int] == 46u8);
    assert(!all_digits(s@));
    let whole = digits_u64(s, 0, k);
    let frac = digits_u64(s, k + 1, n);
    proof {
        let kk = choose|j: int| 0 <= j < s@.len() && s@[j] == 46u8;
        if kk > k {
            assert(s@.subrange(0, kk)[k as int] == 46u8);
            assert(s@.subrange(k + 1, n as int)[kk - k - 1] == 46u8);
        }
    }
    match (whole, frac) {
        (Some(w), Some(f)) => if w <= 9223372036854775807u64 {
            Some(Literal::Frac { whole: w as i64, frac: f })
        } else {
            None
        },
        _ => None,
    }
}

} // verus!
