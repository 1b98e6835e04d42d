//! The addresses of the lyrics service.

use vstd::prelude::*;
use vstd::string::StringExecFns;

use crate::number::{decimal_value, digit_value, is_decimal, is_digit, number_of};

verus! {

/// The address that answers a search; the query goes in its parameter `q`.
pub const SEARCH_URL: &'static str = "https://lrclib.net/api/search";

/// The address under which each track stands by its identifier.
pub const TRACK_URL: &'static str = "https://lrclib.net/api/get/";

/// The ASCII digit that writes `d`, for `d` under ten.
pub open spec fn digit_char(d: nat) -> char {
    if d == 0 {
        '0'
    } else if d == 1 {
        '1'
    } else if d == 2 {
        '2'
    } else if d == 3 {
        '3'
    } else if d == 4 {
        '4'
    } else if d == 5 {
        '5'
    } else if d == 6 {
        '6'
    } else if d == 7 {
        '7'
    } else if d == 8 {
        '8'
    } else {
        '9'
    }
}

/// The digits that write `n` in base ten, without leading zeros.
pub open spec fn decimal_digits(n: nat) -> Seq<char>
    decreases n,
{
    if n < 10 {
        seq![digit_char(n)]
    } else {
        decimal_digits(n / 10).push(digit_char(n % 10))
    }
}

/// The address of the track with identifier `id`.
pub open spec fn track_address(id: nat) -> Seq<char> {
    TRACK_URL@ + decimal_digits(id)
}

/// What `decimal_digits` writes reads back as the same number.
pub proof fn lemma_digits_read_back(n: nat)
    ensures
        is_decimal(decimal_digits(n)),
        decimal_value(decimal_digits(n)) == n,
        forall|max: nat| n <= max ==> number_of(decimal_digits(n), max) == Some(n),
    decreases n,
{
    let digits = decimal_digits(n);
    if n < 10 {
        assert(digits.drop_last() =~= Seq::<char>::empty());
        assert(decimal_value(digits.drop_last()) == 0);
        assert(digit_value(digit_char(n)) == n);
    } else {
        lemma_digits_read_back(n / 10);
        assert(digits.drop_last() =~= decimal_digits(n / 10));
        assert(digit_value(digit_char(n % 10)) == n % 10);
        assert(is_digit(digit_char(n % 10)));
    }
}

/// The text of one digit.
fn digit_str(d: u32) -> (text: &'static str)
    requires
        d < 10,
    ensures
        text@ == seq![digit_char(d as nat)],
{
    proof {
        reveal_strlit("0");
        reveal_strlit("1");
        reveal_strlit("2");
        reveal_strlit("3");
        reveal_strlit("4");
        reveal_strlit("5");
        reveal_strlit("6");
        reveal_strlit("7");
        reveal_strlit("8");
        reveal_strlit("9");
    }
    let text = if d == 0 {
        "0"
    } else if d == 1 {
        "1"
    } else if d == 2 {
        "2"
    } else if d == 3 {
        "3"
    } else if d == 4 {
        "4"
    } else if d == 5 {
        "5"
    } else if d == 6 {
        "6"
    } else if d == 7 {
        "7"
    } else if d == 8 {
        "8"
    } else {
        "9"
    };
    assert(text@ =~= seq![digit_char(d as nat)]);
    text
}

/// Writes `n` in base ten.
pub fn decimal_text(n: u32) -> (text: String)
    ensures
        text@ == decimal_digits(n as nat),
    decreases n,
{
    if n < 10 {
        String::from_str(digit_str(n))
    } else {
        let front = decimal_text(n / 10);
        let text = front.concat(digit_str(n % 10));
        assert(text@ =~= decimal_digits(n as nat));
        text
    }
}

/// The address of the track with identifier `id`.
pub fn track_url(id: u32) -> (url: String)
    ensures
        url@ == track_address(id as nat),
{
    let digits = decimal_text(id);
    String::from_str(TRACK_URL).concat(digits.as_str())
}

} // verus!
