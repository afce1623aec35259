//! Parsing a decimal string into a 32-bit integer, for the `exit` builtin's
//! code argument: an optional sign, one or more digits, nothing else, and the
//! value within the 32-bit range.

use vstd::prelude::*;

use crate::chars::digit;
use crate::chars::digit_value;
use crate::chars::is_digit;

verus! {

/// Every character is a decimal digit.
pub open spec fn all_digits(s: Seq<char>) -> bool {
    forall|i: int| 0 <= i < s.len() ==> is_digit(s[i])
}

/// The value of a digit string, most significant digit first.
pub open spec fn digits_value(s: Seq<char>) -> int
    decreases s.len(),
{
    if s.len() == 0 {
        0
    } else {
        digits_value(s.take(s.len() - 1)) * 10 + digit_value(s.last())
    }
}

/// The unbounded value of a decimal string: an optional `+` or `-`, then one
/// or more digits; anything else is no number.
pub open spec fn spec_parse_int(s: Seq<char>) -> Option<int> {
    let neg = s.len() > 0 && s[0] == '-';
    let digits = if s.len() > 0 && (s[0] == '-' || s[0] == '+') {
        s.skip(1)
    } else {
        s
    };
    if digits.len() > 0 && all_digits(digits) {
        if neg {
            Some(-digits_value(digits))
        } else {
            Some(digits_value(digits))
        }
    } else {
        None
    }
}

/// The value of a decimal string as a 32-bit integer: as `spec_parse_int`,
/// and the value within the type's range.
pub open spec fn spec_parse_i32(s: Seq<char>) -> Option<int> {
    match spec_parse_int(s) {
        Some(v) => if i32::MIN <= v <= i32::MAX {
            Some(v)
        } else {
            None
        },
        None => None,
    }
}

/// A digit string's value never goes down when the string grows.
proof fn lemma_digits_value_nonneg(s: Seq<char>)
    requires
        all_digits(s),
    ensures
        digits_value(s) >= 0,
    decreases s.len(),
{
    if s.len() > 0 {
        assert(all_digits(s.take(s.len() - 1)));
        lemma_digits_value_nonneg(s.take(s.len() - 1));
    }
}

/// Extending a digit string by one digit multiplies its value by ten and adds
/// the digit.
proof fn lemma_digits_value_step(s: Seq<char>, k: int)
    requires
        0 <= k < s.len(),
    ensures
        digits_value(s.take(k + 1)) == digits_value(s.take(k)) * 10 + digit_value(s[k]),
{
    assert(s.take(k + 1).last() == s[k]);
    assert(s.take(k + 1).take(k) =~= s.take(k));
}

/// Reads a decimal string as a 32-bit integer, accepting exactly the strings
/// `spec_parse_i32` gives a value.
pub fn parse_i32(s: &str) -> (r: Option<i32>)
    ensures
        match spec_parse_i32(s@) {
            Some(v) => r is Some && r->0 as int == v,
            None => r is None,
        },
{
    let len = s.unicode_len();
    let mut idx: usize = 0;
    let mut neg = false;
    if len > 0 {
        let c0 = s.get_char(0);
        if c0 == '-' || c0 == '+' {
            neg = c0 == '-';
            idx = 1;
        }
    }
    let ghost digits = if s@.len() > 0 && (s@[0] == '-' || s@[0] == '+') {
        s@.skip(1)
    } else {
        s@
    };
    proof {
        assert(digits =~= s@.subrange(idx as int, len as int));
    }
    if idx == len {
        return None;
    }
    let mut acc: i64 = 0;
    let mut too_big = false;
    let mut i = idx;
    proof {
        assert(digits.take(0) =~= Seq::<char>::empty());
    }
    while i < len
        invariant
            idx <= i <= len,
            len == s@.len(),
            digits == s@.subrange(idx as int, len as int),
            digits == (if s@.len() > 0 && (s@[0] == '-' || s@[0] == '+') {
                s@.skip(1)
            } else {
                s@
            }),
            forall|j: int| 0 <= j < i - idx ==> is_digit(digits[j]),
            !too_big ==> 0 <= acc <= 21474836489 && acc == digits_value(
                digits.take(i - idx),
            ),
            too_big ==> digits_value(digits.take(i - idx)) > 2147483648,
        decreases len - i,
    {
        let c = s.get_char(i);
        proof {
            assert(digits[i - idx] == s@[i as int]);
        }
        match digit(c) {
            None => {
                proof {
                    assert(!all_digits(digits)) by {
                        assert(!is_digit(digits[i - idx]));
                    }
                }
                return None;
            },
            Some(d) => {
                proof {
                    lemma_digits_value_step(digits, i - idx);
                }
                if too_big {
                    proof {
                        assert(digits_value(digits.take(i - idx)) * 10 + digit_value(c)
                            > 2147483648);
                    }
                } else if acc > 2147483648 {
                    too_big = true;
                } else {
                    acc = acc * 10 + (d as i64);
                }
            },
        }
        i = i + 1;
    }
    proof {
        assert(digits.take(len - idx) =~= digits);
        assert(all_digits(digits));
    }
    if too_big {
        proof {
            assert(digits_value(digits) > 2147483648);
        }
        return None;
    }
    if neg {
        if acc > 2147483648 {
            None
        } else if acc == 2147483648 {
            Some(i32::MIN)
        } else {
            Some(-(acc as i32))
        }
    } else {
        if acc > 2147483647 {
            None
        } else {
            Some(acc as i32)
        }
    }
}

} // verus!
