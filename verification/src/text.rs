//! Verified text utilities: string equality over character views and
//! decimal parsing of signed 32-bit integers.

use vstd::prelude::*;

verus! {

/// Character-wise equality of two string slices.
pub fn str_eq(a: &str, b: &str) -> (r: bool)
    ensures
        r <==> a@ == b@,
{
    let a_len = a.unicode_len();
    let b_len = b.unicode_len();
    if a_len != b_len {
        return false;
    }
    let mut i: usize = 0;
    while i < a_len
        invariant
            a_len == a@.len(),
            b_len == b@.len(),
            a_len == b_len,
            i <= a_len,
            forall|j: int| 0 <= j < i ==> a@[j] == b@[j],
        decreases a_len - i,
    {
        if a.get_char(i) != b.get_char(i) {
            return false;
        }
        i = i + 1;
    }
    proof {
        assert(a@ =~= b@);
    }
    true
}

/// A decimal digit.
pub open spec fn is_dec_digit(c: char) -> bool {
    '0' <= c && c <= '9'
}

/// The numeric value of a decimal digit.
pub open spec fn digit_value(c: char) -> int {
    c as int - '0' as int
}

/// Every character of `s` is a decimal digit.
pub open spec fn all_digits(s: Seq<char>) -> bool {
    forall|i: int| 0 <= i < s.len() ==> is_dec_digit(#[trigger] s[i])
}

/// The value of a digit string, most significant digit first.
pub open spec fn digits_value(s: Seq<char>) -> int
    decreases s.len(),
{
    if s.len() == 0 {
        0
    } else {
        digits_value(s.drop_last()) * 10 + digit_value(s.last())
    }
}

/// The integer a decimal string denotes: an optional sign, then one or
/// more digits; anything else denotes nothing.
pub open spec fn dec_value(s: Seq<char>) -> Option<int> {
    if s.len() >= 2 && (s[0] == '-' || s[0] == '+') && all_digits(s.skip(1)) {
        if s[0] == '-' {
            Some(-digits_value(s.skip(1)))
        } else {
            Some(digits_value(s.skip(1)))
        }
    } else if s.len() >= 1 && all_digits(s) {
        Some(digits_value(s))
    } else {
        None
    }
}

/// Parses a signed decimal integer: an optional sign, then one or more
/// digits. Anything else, and any value outside the `i32` range, is
/// rejected with an error instead of a panic.
pub fn parse_i32(s: &str) -> (r: Result<i32, &'static str>)
    ensures
        r is Ok <==> (dec_value(s@) matches Some(v) && i32::MIN <= v <= i32::MAX),
        r matches Ok(x) ==> dec_value(s@) == Some(x as int),
        r matches Err(m) ==> m@ == "invalid number"@,
{
    let n = s.unicode_len();
    if n == 0 {
        return Err("invalid number");
    }
    let first = s.get_char(0);
    let neg: bool = first == '-';
    let start: usize = if first == '-' || first == '+' {
        1
    } else {
        0
    };
    if start == 1 && n == 1 {
        proof {
            assert(!is_dec_digit(s@[0]));
        }
        return Err("invalid number");
    }
    let mut i: usize = start;
    let mut acc: u64 = 0;
    while i < n
        invariant
            n == s@.len(),
            start <= i <= n,
            start == 0 || start == 1,
            start == 1 <==> (s@[0] == '-' || s@[0] == '+'),
            neg <==> s@[0] == '-',
            n >= 1,
            start == 1 ==> n >= 2,
            forall|k: int| start <= k < i ==> is_dec_digit(#[trigger] s@[k]),
            acc <= 2147483649,
            acc <= 2147483648 ==> acc as int == digits_value(
                s@.subrange(start as int, i as int),
            ),
            acc == 2147483649 ==> digits_value(s@.subrange(start as int, i as int))
                > 2147483648,
        decreases n - i,
    {
        let c = s.get_char(i);
        if !(c >= '0' && c <= '9') {
            proof {
                if start == 1 {
                    assert(s@.skip(1)[i - 1] == s@[i as int]);
                    assert(!all_digits(s@.skip(1)));
                    assert(!is_dec_digit(s@[0]));
                    assert(!all_digits(s@));
                } else {
                    assert(!all_digits(s@));
                }
            }
            return Err("invalid number");
        }
        let d: u64 = ((c as u32) - ('0' as u32)) as u64;
        proof {
            let pre = s@.subrange(start as int, i as int);
            let post = s@.subrange(start as int, i as int + 1);
            assert(post.drop_last() =~= pre);
            assert(post.last() == s@[i as int]);
            assert(digits_value(post) == digits_value(pre) * 10 + digit_value(s@[i as int]));
        }
        if acc <= 2147483648 {
            let next: u64 = acc * 10 + d;
            if next <= 2147483648 {
                acc = next;
            } else {
                acc = 2147483649;
            }
        }
        i = i + 1;
    }
    proof {
        if start == 1 {
            assert(s@.skip(1) =~= s@.subrange(1, n as int));
            assert(all_digits(s@.skip(1)));
        } else {
            assert(s@.subrange(0, n as int) =~= s@);
            assert(is_dec_digit(s@[0]));
            assert(s@[0] != '-' && s@[0] != '+');
        }
    }
    if neg {
        if acc <= 2147483648 {
            let v: i64 = -(acc as i64);
            Ok(v as i32)
        } else {
            Err("invalid number")
        }
    } else {
        if acc <= 2147483647 {
            Ok(acc as i32)
        } else {
            Err("invalid number")
        }
    }
}

} // verus!
