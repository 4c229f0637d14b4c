use vstd::prelude::*;

verus! {

use vstd::string::StrSliceExecFns;

/// `c` is a decimal digit (code points for `'0'` through `'9'`).
pub open spec fn is_dec_digit(c: char) -> bool {
    48 <= c as int && c as int <= 57
}

/// The numeric value of one decimal digit.
pub open spec fn digit_value(c: char) -> int {
    c as int - 48
}

/// The value named by a string of decimal digits, most significant first.
pub open spec fn dec_value(s: Seq<char>) -> int
    decreases s.len(),
{
    if s.len() == 0 {
        0
    } else {
        dec_value(s.drop_last()) * 10 + digit_value(s.last())
    }
}

/// Every character of `s` is a decimal digit.
pub open spec fn all_dec_digits(s: Seq<char>) -> bool {
    forall|i: int| 0 <= i < s.len() ==> is_dec_digit(#[trigger] s[i])
}

/// The digit portion of a numeral: everything after an optional leading
/// plus sign.
pub open spec fn numeral_digits(s: Seq<char>) -> Seq<char> {
    if s.len() > 0 && s[0] == '+' {
        s.drop_first()
    } else {
        s
    }
}

/// `s` spells a value a `u64` can hold: after an optional leading plus sign
/// there is at least one character, all of them decimal digits, and the
/// value they name is at most `u64::MAX`.
pub open spec fn is_u64_numeral(s: Seq<char>) -> bool {
    &&& numeral_digits(s).len() > 0
    &&& all_dec_digits(numeral_digits(s))
    &&& dec_value(numeral_digits(s)) <= u64::MAX
}

/// A string of digits names a non-negative value.
proof fn lemma_dec_value_nonneg(s: Seq<char>)
    requires
        all_dec_digits(s),
    ensures
        dec_value(s) >= 0,
    decreases s.len(),
{
    if s.len() > 0 {
        assert(forall|i: int|
            0 <= i < s.drop_last().len() ==> is_dec_digit(#[trigger] s.drop_last()[i]));
        lemma_dec_value_nonneg(s.drop_last());
    }
}

/// Extending a string of digits on the right never shrinks its value.
proof fn lemma_dec_value_prefix_le(s: Seq<char>, k: int)
    requires
        all_dec_digits(s),
        0 <= k <= s.len(),
    ensures
        dec_value(s.take(k)) <= dec_value(s),
    decreases s.len() - k,
{
    if k < s.len() {
        let t = s.take(k + 1);
        assert(t.drop_last() =~= s.take(k));
        assert(t.last() == s[k]);
        assert(forall|i: int| 0 <= i < s.take(k).len() ==> is_dec_digit(#[trigger] s.take(k)[i]));
        lemma_dec_value_nonneg(s.take(k));
        assert(dec_value(t) == dec_value(s.take(k)) * 10 + digit_value(s[k]));
        assert(dec_value(s.take(k)) <= dec_value(t));
        lemma_dec_value_prefix_le(s, k + 1);
    } else {
        assert(s.take(k) =~= s);
    }
}

/// Parses a decimal numeral, optionally prefixed by a plus sign, into a
/// `u64`. Returns `None` exactly when the string is not such a numeral or
/// its value does not fit.
pub fn parse_u64(s: &str) -> (r: Option<u64>)
    ensures
        r matches Some(n) ==> is_u64_numeral(s@) && n == dec_value(numeral_digits(s@)),
        r is None ==> !is_u64_numeral(s@),
{
    let len = s.unicode_len();
    let start: usize = if len > 0 && s.get_char(0) == '+' {
        1
    } else {
        0
    };
    if len == start {
        // Empty input, or a lone plus sign: there are no digits.
        assert(numeral_digits(s@).len() == 0);
        return None;
    }
    let ghost digits = numeral_digits(s@);
    proof {
        assert(digits =~= s@.subrange(start as int, len as int));
    }
    let mut acc: u64 = 0;
    let mut i: usize = start;
    while i < len
        invariant
            start <= i <= len,
            start < len,
            len == s@.len(),
            start == 1 ==> s@.len() > 0 && s@[0] == '+',
            start == 0 || start == 1,
            digits == numeral_digits(s@),
            digits =~= s@.subrange(start as int, len as int),
            forall|j: int| start <= j < i ==> is_dec_digit(#[trigger] s@[j]),
            acc == dec_value(s@.subrange(start as int, i as int)),
        decreases len - i,
    {
        let c = s.get_char(i);
        let cv: u32 = c as u32;
        if cv < 48 || cv > 57 {
            // A non-digit character: the string is no numeral.
            assert(digits[i - start] == s@[i as int]);
            assert(!is_dec_digit(digits[i - start]));
            return None;
        }
        let d: u64 = (cv - 48) as u64;
        let limit = (u64::MAX - d) / 10;
        proof {
            vstd::arithmetic::div_mod::lemma_fundamental_div_mod((u64::MAX - d) as int, 10);
        }
        let ghost prefix = s@.subrange(start as int, i as int);
        let ghost extended = s@.subrange(start as int, i + 1);
        proof {
            assert(extended.drop_last() =~= prefix);
            assert(extended.last() == s@[i as int]);
            assert(dec_value(extended) == acc * 10 + d);
        }
        if acc > limit {
            // The next digit would push the value past u64::MAX, so no
            // suffix of further digits can bring it back down.
            proof {
                assert(dec_value(extended) > u64::MAX);
                if all_dec_digits(digits) {
                    assert(extended =~= digits.take(i + 1 - start));
                    lemma_dec_value_prefix_le(digits, i + 1 - start);
                }
            }
            return None;
        }
        acc = acc * 10 + d;
        i = i + 1;
    }
    proof {
        assert(s@.subrange(start as int, i as int) =~= digits);
        assert(forall|j: int| 0 <= j < digits.len() ==> is_dec_digit(#[trigger] digits[j]));
    }
    Some(acc)
}

} // verus!
