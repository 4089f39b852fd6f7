//! The grammar of the original-estimate field: empty, or an unsigned decimal
//! number of seconds.

use vstd::prelude::*;

verus! {

/// The value of a decimal digit, or `None` for any other character.
pub open spec fn digit_value(c: char) -> Option<nat> {
    if '0' <= c && c <= '9' {
        Some((c as u32 - '0' as u32) as nat)
    } else {
        None
    }
}

/// The number that a run of decimal digits denotes; the empty run denotes
/// zero, and a run with any other character denotes nothing.
pub open spec fn digits_value(s: Seq<char>) -> Option<nat>
    decreases s.len(),
{
    if s.len() == 0 {
        Some(0)
    } else {
        match (digits_value(s.drop_last()), digit_value(s.last())) {
            (Some(high), Some(low)) => Some(high * 10 + low),
            _ => None,
        }
    }
}

/// The digits of an unsigned decimal numeral: the text itself, without the
/// plus sign that may lead it.
pub open spec fn numeral_digits(s: Seq<char>) -> Seq<char> {
    if s.len() > 0 && s[0] == '+' {
        s.skip(1)
    } else {
        s
    }
}

/// The number that an unsigned decimal numeral denotes: an optional plus
/// sign, then at least one digit and nothing else.
pub open spec fn numeral_value(s: Seq<char>) -> Option<nat> {
    if numeral_digits(s).len() == 0 {
        None
    } else {
        digits_value(numeral_digits(s))
    }
}

/// What an estimate field holds: `Ok(None)` when it is empty, `Ok(Some(n))`
/// when it is a numeral for `n` seconds that fits 32 bits, `Err` otherwise.
pub open spec fn estimate_of(field: Seq<char>) -> Result<Option<u32>, ()> {
    if field.len() == 0 {
        Ok(None)
    } else {
        match numeral_value(field) {
            Some(v) if v <= u32::MAX => Ok(Some(v as u32)),
            _ => Err(()),
        }
    }
}

/// A run of digits denotes at least as much as any run it extends.
pub proof fn lemma_digits_prefix(s: Seq<char>, n: int)
    requires
        0 <= n <= s.len(),
        digits_value(s) is Some,
    ensures
        digits_value(s.take(n)) is Some,
        digits_value(s.take(n))->0 <= digits_value(s)->0,
    decreases s.len(),
{
    if n == s.len() {
        assert(s.take(n) =~= s);
    } else {
        lemma_digits_prefix(s.drop_last(), n);
        assert(s.drop_last().take(n) =~= s.take(n));
    }
}

/// Reads an estimate field.
pub fn parse_estimate(field: &str) -> (r: Result<Option<u32>, ()>)
    ensures
        r == estimate_of(field@),
{
    if field.is_empty() {
        return Ok(None);
    }
    let mut value: u64 = 0;
    let mut first: bool = true;
    let mut any_digit: bool = false;
    let ghost digits = numeral_digits(field@);
    let ghost mut seen: int = 0;
    for c in it: field.chars()
        invariant
            it.seq() == field@,
            digits == numeral_digits(field@),
            field@.len() > 0,
            first == (it.index() == 0),
            seen == (if it.index() > 0 && field@[0] == '+' { it.index() - 1 } else { it.index() as int }),
            any_digit == (seen > 0),
            0 <= seen <= digits.len(),
            digits_value(digits.take(seen)) == Some(value as nat),
            value <= u32::MAX,
    {
        if first && c == '+' {
            first = false;
            proof {
                assert(digits.take(0) =~= Seq::<char>::empty());
            }
        } else if '0' <= c && c <= '9' {
            let low: u64 = (c as u32 - '0' as u32) as u64;
            proof {
                let next = digits.take(seen + 1);
                assert(next.drop_last() =~= digits.take(seen));
                assert(next.last() == c);
                seen = seen + 1;
            }
            value = value * 10 + low;
            first = false;
            any_digit = true;
            if value > 0xffff_ffff {
                proof {
                    if digits_value(digits) is Some {
                        lemma_digits_prefix(digits, seen);
                    }
                }
                return Err(());
            }
        } else {
            proof {
                if digits_value(digits) is Some {
                    lemma_digits_prefix(digits, seen + 1);
                    let next = digits.take(seen + 1);
                    assert(next.last() == c);
                }
            }
            return Err(());
        }
    }
    proof {
        assert(digits.take(seen) =~= digits);
    }
    if any_digit {
        Ok(Some(value as u32))
    } else {
        Err(())
    }
}

} // verus!
