//! Verified parsing of numeric-text payloads.
//!
//! A numeric wire value carries its number as text; the decoder parses
//! it into the width the target shape requests.  The accepted grammar
//! is the standard one for Rust's integer parsing: one optional leading
//! `+` (or, for signed targets, `-`), then one or more decimal digits,
//! and nothing else.  Parsing fails when the text is malformed or the
//! value does not fit the requested width.

use vstd::prelude::*;

verus! {

/// Whether `c` is a decimal digit.
pub open spec fn is_dec_digit(c: char) -> bool {
    '0' as int <= c as int && c as int <= '9' as int
}

/// The numeric value of a decimal digit.
pub open spec fn digit_val(c: char) -> int {
    c as int - '0' as int
}

/// Whether every character of `s` is a decimal digit.
pub open spec fn all_digits(s: Seq<char>) -> bool {
    forall|i: int| 0 <= i < s.len() ==> is_dec_digit(#[trigger] s[i])
}

/// The value of a sequence of decimal digits, most significant first.
pub open spec fn digits_val(s: Seq<char>) -> int
    decreases s.len(),
{
    if s.len() == 0 {
        0
    } else {
        digits_val(s.drop_last()) * 10 + digit_val(s.last())
    }
}

/// The mathematical value of `s` read as an unsigned decimal number:
/// an optional leading `+`, then one or more digits.  `None` when the
/// text is not of that form.
pub open spec fn spec_parse_unsigned(s: Seq<char>) -> Option<int> {
    let body = if s.len() > 0 && s[0] == '+' { s.skip(1) } else { s };
    if body.len() > 0 && all_digits(body) {
        Some(digits_val(body))
    } else {
        None
    }
}

/// The mathematical value of `s` read as a signed decimal number: an
/// optional leading `+` or `-`, then one or more digits.  `None` when
/// the text is not of that form.
pub open spec fn spec_parse_signed(s: Seq<char>) -> Option<int> {
    if s.len() > 0 && s[0] == '-' {
        let body = s.skip(1);
        if body.len() > 0 && all_digits(body) {
            Some(-digits_val(body))
        } else {
            None
        }
    } else {
        spec_parse_unsigned(s)
    }
}

/// A digit string's value is never negative.
pub proof fn lemma_digits_val_nonneg(s: Seq<char>)
    requires
        all_digits(s),
    ensures
        digits_val(s) >= 0,
    decreases s.len(),
{
    if s.len() > 0 {
        lemma_digits_val_nonneg(s.drop_last());
    }
}

/// Extending a digit string on the right never decreases its value.
pub proof fn lemma_digits_val_prefix(s: Seq<char>, i: int)
    requires
        all_digits(s),
        0 <= i <= s.len(),
    ensures
        digits_val(s.take(i)) <= digits_val(s),
    decreases s.len() - i,
{
    if i == s.len() {
        assert(s.take(i) =~= s);
    } else {
        assert(s.take(i + 1).drop_last() =~= s.take(i));
        assert(all_digits(s.take(i)));
        lemma_digits_val_nonneg(s.take(i));
        assert(digits_val(s.take(i + 1)) == digits_val(s.take(i)) * 10 + digit_val(s[i]));
        lemma_digits_val_prefix(s, i + 1);
    }
}

/// Parse the digits of `s` from position `start` to the end as an
/// unsigned number.  `None` when the run is empty, holds a non-digit,
/// or exceeds `u64::MAX`.
pub fn parse_digits_u64(s: &str, start: usize) -> (r: Option<u64>)
    requires
        start <= s@.len(),
    ensures
        match r {
            Some(v) => {
                &&& s@.skip(start as int).len() > 0
                &&& all_digits(s@.skip(start as int))
                &&& digits_val(s@.skip(start as int)) == v as int
            },
            None => {
                ||| s@.skip(start as int).len() == 0
                ||| !all_digits(s@.skip(start as int))
                ||| digits_val(s@.skip(start as int)) > u64::MAX as int
            },
        },
{
    let n = s.unicode_len();
    if start >= n {
        return None;
    }
    let mut acc: u64 = 0;
    let mut i: usize = start;
    while i < n
        invariant
            start <= i <= n,
            n == s@.len(),
            all_digits(s@.subrange(start as int, i as int)),
            acc as int == digits_val(s@.subrange(start as int, i as int)),
        decreases n - i,
    {
        let c = s.get_char(i);
        let cu = c as u32;
        if cu < '0' as u32 || cu > '9' as u32 {
            proof {
                assert(s@.skip(start as int)[i - start] == s@[i as int]);
                assert(!all_digits(s@.skip(start as int)));
            }
            return None;
        }
        let d = (cu - '0' as u32) as u64;
        proof {
            assert(d as int == digit_val(s@[i as int]));
        }
        if acc > (u64::MAX - d) / 10 {
            proof {
                let body = s@.skip(start as int);
                if all_digits(body) {
                    let m = u64::MAX as int;
                    assert((m - d) == ((m - d) / 10) * 10 + (m - d) % 10);
                    assert(acc * 10 + d > m);
                    assert(s@.subrange(start as int, i + 1).drop_last() =~= s@.subrange(
                        start as int,
                        i as int,
                    ));
                    assert(digits_val(s@.subrange(start as int, i + 1)) == acc * 10 + d);
                    assert(body.take(i + 1 - start) =~= s@.subrange(start as int, i + 1));
                    lemma_digits_val_prefix(body, i + 1 - start);
                }
            }
            return None;
        }
        proof {
            assert(acc * 10 + d <= u64::MAX) by {
                let m = u64::MAX as int;
                assert((m - d) == ((m - d) / 10) * 10 + (m - d) % 10);
            }
            assert(s@.subrange(start as int, i + 1).drop_last() =~= s@.subrange(
                start as int,
                i as int,
            ));
        }
        acc = acc * 10 + d;
        i = i + 1;
    }
    proof {
        assert(s@.subrange(start as int, n as int) =~= s@.skip(start as int));
    }
    Some(acc)
}

/// Parse `s` as an unsigned decimal number that fits in a `u64`.
pub fn parse_u64(s: &str) -> (r: Option<u64>)
    ensures
        r is Some <==> (spec_parse_unsigned(s@) matches Some(n) && n <= u64::MAX as int),
        r matches Some(v) ==> spec_parse_unsigned(s@) == Some(v as int),
{
    let n = s.unicode_len();
    let start: usize = if n > 0 && s.get_char(0) == '+' {
        1
    } else {
        0
    };
    proof {
        if !(s@.len() > 0 && s@[0] == '+') {
            assert(s@.skip(0) =~= s@);
        }
    }
    parse_digits_u64(s, start)
}

/// Parse `s` as a signed decimal number that fits in an `i64`.
pub fn parse_i64(s: &str) -> (r: Option<i64>)
    ensures
        r is Some <==> (spec_parse_signed(s@) matches Some(n) && i64::MIN as int <= n
            <= i64::MAX as int),
        r matches Some(v) ==> spec_parse_signed(s@) == Some(v as int),
{
    let n = s.unicode_len();
    if n > 0 && s.get_char(0) == '-' {
        match parse_digits_u64(s, 1) {
            None => {
                proof {
                    let body = s@.skip(1);
                    if body.len() > 0 && all_digits(body) {
                        lemma_digits_val_nonneg(body);
                        assert(digits_val(body) > u64::MAX as int);
                    }
                }
                None
            },
            Some(mag) => {
                proof {
                    lemma_digits_val_nonneg(s@.skip(1));
                }
                if mag > 9223372036854775808u64 {
                    None
                } else if mag == 9223372036854775808u64 {
                    Some(i64::MIN)
                } else {
                    Some(-(mag as i64))
                }
            },
        }
    } else {
        let start: usize = if n > 0 && s.get_char(0) == '+' {
            1
        } else {
            0
        };
        proof {
            if !(s@.len() > 0 && s@[0] == '+') {
                assert(s@.skip(0) =~= s@);
            }
        }
        match parse_digits_u64(s, start) {
            None => None,
            Some(v) => {
                if v > i64::MAX as u64 {
                    None
                } else {
                    Some(v as i64)
                }
            },
        }
    }
}

} // verus!
