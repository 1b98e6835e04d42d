//! Decimal numbers written as text.

use vstd::prelude::*;

verus! {

/// Whether `c` is one of the ten ASCII digits.
pub open spec fn is_digit(c: char) -> bool {
    '0' <= c <= '9'
}

/// The value of an ASCII digit.
pub open spec fn digit_value(c: char) -> nat {
    (c as u32 - '0' as u32) as nat
}

/// The number that a run of digits writes in base ten; leading zeros count
/// for nothing, and the empty run is zero.
pub open spec fn decimal_value(digits: Seq<char>) -> nat
    decreases digits.len(),
{
    if digits.len() == 0 {
        0
    } else {
        decimal_value(digits.drop_last()) * 10 + digit_value(digits.last())
    }
}

/// Whether `text` is a non-empty run of ASCII digits.
pub open spec fn is_decimal(text: Seq<char>) -> bool {
    text.len() > 0 && forall|i: int| 0 <= i < text.len() ==> is_digit(#[trigger] text[i])
}

/// The number that `text` writes, where it is a decimal of at most `max`.
pub open spec fn number_of(text: Seq<char>, max: nat) -> Option<nat> {
    if is_decimal(text) && decimal_value(text) <= max {
        Some(decimal_value(text))
    } else {
        None
    }
}

/// A run of digits is worth at least as much as any of its prefixes.
pub proof fn lemma_decimal_value_grows(digits: Seq<char>, n: int)
    requires
        0 <= n <= digits.len(),
    ensures
        decimal_value(digits.take(n)) <= decimal_value(digits),
    decreases digits.len(),
{
    if n < digits.len() {
        lemma_decimal_value_grows(digits.drop_last(), n);
        assert(digits.drop_last().take(n) =~= digits.take(n));
    } else {
        assert(digits.take(n) =~= digits);
    }
}

/// Reads `text` as a decimal number of at most `max`.
pub fn parse_number(text: &str, max: u32) -> (parsed: Option<u32>)
    ensures
        match number_of(text@, max as nat) {
            Some(value) => parsed == Some(value as u32),
            None => parsed is None,
        },
{
    let mut value: u64 = 0;
    let mut any: bool = false;
    for c in it: text.chars()
        invariant
            it.seq() == text@,
            any <==> it.index() > 0,
            value == decimal_value(text@.take(it.index() as int)),
            value <= max,
            forall|i: int| 0 <= i < it.index() ==> is_digit(#[trigger] text@[i]),
    {
        if !('0' <= c && c <= '9') {
            return None;
        }
        let digit: u64 = (c as u32 - '0' as u32) as u64;
        value = value * 10 + digit;
        any = true;
        proof {
            let read = text@.take(it.index() + 1);
            assert(read.drop_last() =~= text@.take(it.index() as int));
            assert(read.last() == c);
        }
        if value > max as u64 {
            proof {
                lemma_decimal_value_grows(text@, it.index() + 1);
            }
            return None;
        }
    }
    proof {
        assert(text@.take(text@.len() as int) =~= text@);
    }
    if any {
        Some(value as u32)
    } else {
        None
    }
}

} // verus!
