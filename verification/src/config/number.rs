//! Reading unsigned integers and booleans from text, as `str::parse` does.

use vstd::prelude::*;

use crate::text::{chars_of, text_eq};

verus! {

pub open spec fn is_digit(c: char) -> bool {
    '0' <= c <= '9'
}

pub open spec fn all_digits(s: Seq<char>) -> bool {
    forall|i: int| 0 <= i < s.len() ==> is_digit(#[trigger] s[i])
}

/// The value of a string of decimal digits.
pub open spec fn digits_value(s: Seq<char>) -> nat
    decreases s.len(),
{
    if s.len() == 0 {
        0
    } else {
        digits_value(s.drop_last()) * 10 + ((s.last() as u32) - ('0' as u32)) as nat
    }
}

/// The digits of an unsigned number's text: a leading `+` is dropped.
pub open spec fn unsigned_digits(s: Seq<char>) -> Seq<char> {
    if s.len() > 0 && s[0] == '+' {
        s.skip(1)
    } else {
        s
    }
}

/// The unsigned number a text holds, as `str::parse` reads it for an
/// unsigned type whose largest value is `max`: an optional `+`, then at
/// least one decimal digit, and a value that fits.
pub open spec fn parse_unsigned(s: Seq<char>, max: nat) -> Option<nat> {
    let d = unsigned_digits(s);
    if d.len() > 0 && all_digits(d) && digits_value(d) <= max {
        Some(digits_value(d))
    } else {
        None
    }
}

/// The boolean a text holds, as `str::parse::<bool>` reads it.
pub open spec fn parse_bool(s: Seq<char>) -> Option<bool> {
    if s == "true"@ {
        Some(true)
    } else if s == "false"@ {
        Some(false)
    } else {
        None
    }
}

proof fn lemma_digits_value_grows(s: Seq<char>, k: int)
    requires
        0 <= k <= s.len(),
        all_digits(s),
    ensures
        digits_value(s.take(k)) <= digits_value(s),
    decreases s.len() - k,
{
    if k < s.len() {
        lemma_digits_value_grows(s, k + 1);
        assert(s.take(k + 1).drop_last() =~= s.take(k));
        assert(is_digit(s[k]));
    } else {
        assert(s.take(k) =~= s);
    }
}

/// Reads an unsigned number no larger than `max`.
pub fn parse_unsigned_text(text: &str, max: u64) -> (r: Option<u64>)
    ensures
        match parse_unsigned(text@, max as nat) {
            Some(v) => r == Some(v as u64),
            None => r is None,
        },
{
    let chars = chars_of(text);
    let n = chars.len();
    let start: usize = if n > 0 && chars[0] == '+' { 1 } else { 0 };
    let ghost d = unsigned_digits(text@);
    proof {
        assert(d =~= chars@.subrange(start as int, n as int));
    }
    if start == n {
        return None;
    }
    let mut acc: u64 = 0;
    let mut i: usize = start;
    while i < n
        invariant
            chars@ == text@,
            n == chars@.len(),
            start <= i <= n,
            d == chars@.subrange(start as int, n as int),
            d == unsigned_digits(text@),
            all_digits(d.take(i - start)),
            acc as nat == digits_value(d.take(i - start)),
            acc <= max,
        decreases n - i,
    {
        let c = chars[i];
        proof {
            assert(d[i - start] == c);
            assert(d.take(i - start + 1).drop_last() =~= d.take(i - start));
            assert(d.take(i - start + 1).last() == c);
        }
        if !('0' <= c && c <= '9') {
            proof {
                assert(!all_digits(d)) by {
                    assert(!is_digit(d[i - start]));
                }
            }
            return None;
        }
        let digit: u64 = ((c as u32) - ('0' as u32)) as u64;
        if digit > max || acc > (max - digit) / 10 {
            proof {
                assert(digits_value(d.take(i - start + 1)) > max);
                if all_digits(d) {
                    lemma_digits_value_grows(d, i - start + 1);
                }
            }
            return None;
        }
        acc = acc * 10 + digit;
        proof {
            assert forall|j: int| 0 <= j < i - start + 1 implies is_digit(#[trigger] d.take(i - start + 1)[j]) by {
                if j < i - start {
                    assert(d.take(i - start)[j] == d.take(i - start + 1)[j]);
                }
            }
        }
        i = i + 1;
    }
    proof {
        assert(d.take(n - start) =~= d);
    }
    Some(acc)
}

/// Reads `true` or `false`.
pub fn parse_bool_text(text: &str) -> (r: Option<bool>)
    ensures
        r == parse_bool(text@),
{
    if text_eq(text, "true") {
        Some(true)
    } else if text_eq(text, "false") {
        Some(false)
    } else {
        None
    }
}

} // verus!
