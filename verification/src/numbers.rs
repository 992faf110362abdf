//! Decimal integer literals.
//!
//! A trimmed line parses as an integer when it is an optional sign followed
//! by one or more decimal digits and its value fits the target type.
//! `int_text_val` gives the denoted value as a mathematical integer;
//! `parse_i64` and `parse_u32` are the verified executable parsers.

use vstd::prelude::*;
use vstd::string::StrSliceExecFns;

verus! {

/// A decimal digit.
pub open spec fn is_digit(c: char) -> bool {
    48 <= c as u32 && c as u32 <= 57
}

/// The value of one digit.
pub open spec fn digit_val(c: char) -> int
    recommends
        is_digit(c),
{
    c as u32 - 48
}

/// Every character of `s` is a digit.
pub open spec fn all_digits(s: Seq<char>) -> bool {
    forall|k: int| 0 <= k < s.len() ==> is_digit(s[k])
}

/// The value of a digit string read in base ten.
pub open spec fn digits_val(s: Seq<char>) -> int
    recommends
        all_digits(s),
    decreases s.len(),
{
    if s.len() == 0 {
        0
    } else {
        digits_val(s.drop_last()) * 10 + digit_val(s.last())
    }
}

/// A digit string has a non-negative value.
proof fn lemma_digits_val_nonneg(s: Seq<char>)
    requires
        all_digits(s),
    ensures
        digits_val(s) >= 0,
    decreases s.len(),
{
    if s.len() > 0 {
        assert(all_digits(s.drop_last()));
        lemma_digits_val_nonneg(s.drop_last());
    }
}

/// Reading more digits never shrinks the value: the value of a prefix is a
/// lower bound for the value of the whole digit string.
proof fn lemma_digits_val_prefix(s: Seq<char>, i: int)
    requires
        all_digits(s),
        0 <= i <= s.len(),
    ensures
        digits_val(s.take(i)) <= digits_val(s),
    decreases s.len() - i,
{
    if i == s.len() {
        assert(s.take(i) =~= s);
    } else {
        let t = s.drop_last();
        assert(all_digits(t));
        assert(s.take(i) =~= t.take(i));
        lemma_digits_val_prefix(t, i);
        lemma_digits_val_nonneg(t);
    }
}

/// `s` starts with an explicit sign character.
pub open spec fn has_sign(s: Seq<char>) -> bool {
    s.len() > 0 && (s[0] == '+' || s[0] == '-')
}

/// `s` starts with a minus sign.
pub open spec fn is_negative(s: Seq<char>) -> bool {
    s.len() > 0 && s[0] == '-'
}

/// `s` without its sign character, if it has one.
pub open spec fn digits_part(s: Seq<char>) -> Seq<char> {
    if has_sign(s) {
        s.drop_first()
    } else {
        s
    }
}

/// `s` is an integer literal: an optional sign followed by at least one
/// digit. Nothing else — no decimal point, no inner whitespace.
pub open spec fn is_int_text(s: Seq<char>) -> bool {
    digits_part(s).len() > 0 && all_digits(digits_part(s))
}

/// The integer that the literal `s` denotes.
pub open spec fn int_text_val(s: Seq<char>) -> int
    recommends
        is_int_text(s),
{
    if is_negative(s) {
        -digits_val(digits_part(s))
    } else {
        digits_val(digits_part(s))
    }
}

/// The largest magnitude an `i64` literal may denote (the magnitude of
/// `i64::MIN`). The digit scan gives up beyond it.
pub const MAX_I64_MAGNITUDE: u128 = 9223372036854775808;

/// Read `s` from position `from` to the end as a digit string. Returns its
/// value when there is at least one character, all of them are digits and
/// the value is at most `MAX_I64_MAGNITUDE`; returns `None` otherwise.
fn digits_from(s: &str, from: usize, n: usize) -> (r: Option<u128>)
    requires
        from <= n == s@.len(),
    ensures
        match r {
            Some(v) => {
                &&& from < s@.len()
                &&& all_digits(s@.skip(from as int))
                &&& v == digits_val(s@.skip(from as int))
                &&& v <= MAX_I64_MAGNITUDE
            },
            None => !{
                &&& from < s@.len()
                &&& all_digits(s@.skip(from as int))
                &&& digits_val(s@.skip(from as int)) <= MAX_I64_MAGNITUDE
            },
        },
{
    if from == n {
        return None;
    }
    let ghost tail = s@.skip(from as int);
    let mut i: usize = from;
    let mut v: u128 = 0;
    while i < n
        invariant
            from <= i <= n,
            n == s@.len(),
            tail == s@.skip(from as int),
            all_digits(s@.subrange(from as int, i as int)),
            v == digits_val(s@.subrange(from as int, i as int)),
            v <= MAX_I64_MAGNITUDE,
        decreases n - i,
    {
        let c = s.get_char(i);
        let u = c as u32;
        if u < 48 || u > 57 {
            proof {
                assert(!is_digit(tail[i - from]));
            }
            return None;
        }
        let d: u128 = (u - 48) as u128;
        let w: u128 = v * 10 + d;
        proof {
            let p = s@.subrange(from as int, i + 1 as int);
            assert(p.drop_last() =~= s@.subrange(from as int, i as int));
            assert(p.last() == s@[i as int]);
            assert(all_digits(p));
        }
        if w > MAX_I64_MAGNITUDE {
            proof {
                if all_digits(tail) {
                    assert(tail.take(i + 1 - from) =~= s@.subrange(from as int, i + 1 as int));
                    lemma_digits_val_prefix(tail, i + 1 - from);
                }
            }
            return None;
        }
        v = w;
        i = i + 1;
    }
    proof {
        assert(s@.subrange(from as int, n as int) =~= tail);
    }
    Some(v)
}

/// Parse a trimmed line as an `i64`: an optional sign, then digits, and a
/// value within the type's range. Returns exactly the denoted value.
pub fn parse_i64(s: &str) -> (r: Option<i64>)
    ensures
        r is Some <==> is_int_text(s@) && i64::MIN <= int_text_val(s@) <= i64::MAX,
        r matches Some(v) ==> v == int_text_val(s@),
{
    let n = s.unicode_len();
    let mut neg: bool = false;
    let mut start: usize = 0;
    if n > 0 {
        let c0 = s.get_char(0);
        if c0 == '-' {
            neg = true;
            start = 1;
        } else if c0 == '+' {
            start = 1;
        }
    }
    proof {
        assert(s@.skip(start as int) =~= digits_part(s@));
        assert(neg == is_negative(s@));
    }
    match digits_from(s, start, n) {
        None => None,
        Some(mag) => {
            proof {
                lemma_digits_val_nonneg(digits_part(s@));
            }
            if neg {
                if mag <= 9223372036854775807 {
                    Some(-(mag as i64))
                } else {
                    Some(i64::MIN)
                }
            } else {
                if mag <= 9223372036854775807 {
                    Some(mag as i64)
                } else {
                    None
                }
            }
        },
    }
}

/// Parse a trimmed line as a `u32`: an optional plus sign, then digits, and
/// a value within the type's range. A minus sign is rejected, even on zero.
/// Returns exactly the denoted value.
pub fn parse_u32(s: &str) -> (r: Option<u32>)
    ensures
        r is Some <==> is_int_text(s@) && !is_negative(s@) && int_text_val(s@) <= u32::MAX,
        r matches Some(v) ==> v == int_text_val(s@),
{
    let n = s.unicode_len();
    let mut start: usize = 0;
    if n > 0 {
        let c0 = s.get_char(0);
        if c0 == '-' {
            return None;
        }
        if c0 == '+' {
            start = 1;
        }
    }
    proof {
        assert(s@.skip(start as int) =~= digits_part(s@));
        assert(!is_negative(s@));
    }
    match digits_from(s, start, n) {
        None => None,
        Some(mag) => {
            proof {
                lemma_digits_val_nonneg(digits_part(s@));
            }
            if mag <= 4294967295 {
                Some(mag as u32)
            } else {
                None
            }
        },
    }
}

} // verus!
