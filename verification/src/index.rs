//! Capture group numbers as they are spelled in a grammar: a key of a
//! captures map is the decimal spelling of the group's index.

use vstd::prelude::*;
use std::num::ParseIntError;

verus! {

/// What `str::parse::<usize>` reports for a string that is no index.
#[verifier::external_type_specification]
#[verifier::external_body]
pub struct ExParseIntError(ParseIntError);

/// Whether `c` is one of the ten ASCII digits.
pub open spec fn is_digit(c: char) -> bool {
    '0' <= c <= '9'
}

/// The value of the ASCII digit `c`.
pub open spec fn digit_value(c: char) -> nat
    recommends
        is_digit(c),
{
    (c as nat - '0' as nat) as nat
}

/// Whether `s` consists of ASCII digits only.
pub open spec fn all_digits(s: Seq<char>) -> bool {
    forall|i: int| 0 <= i < s.len() ==> is_digit(#[trigger] s[i])
}

/// The number that the digits `s` spell in base ten.
pub open spec fn decimal_value(s: Seq<char>) -> nat
    decreases s.len(),
{
    if s.len() == 0 {
        0
    } else {
        decimal_value(s.drop_last()) * 10 + digit_value(s.last())
    }
}

/// The capture index that `key` spells, if it spells one: an optional `+`,
/// then at least one ASCII digit and nothing else, with a value that fits in
/// `usize`.
pub open spec fn capture_index(key: Seq<char>) -> Option<nat> {
    let digits = if key.len() > 0 && key[0] == '+' {
        key.skip(1)
    } else {
        key
    };
    if digits.len() > 0 && all_digits(digits) && decimal_value(digits) <= usize::MAX {
        Some(decimal_value(digits))
    } else {
        None
    }
}

/// The index that `key` contributes when a captures map is sized: what it
/// spells, or 0 where it spells nothing.
pub open spec fn capture_index_or_zero(key: Seq<char>) -> nat {
    match capture_index(key) {
        Some(index) => index,
        None => 0,
    }
}

/// Calls `str::parse::<usize>`. The contract restates what std documents of
/// it: the string is an optional `+` sign followed by decimal digits only, an
/// empty string, any other character and a value beyond `usize::MAX` are
/// errors.
#[verifier::external_body]
pub(crate) fn parse_capture_index(key: &str) -> (parsed: Result<usize, ParseIntError>)
    ensures
        match parsed {
            Ok(index) => capture_index(key@) == Some(index as nat),
            Err(_) => capture_index(key@) is None,
        },
{
    key.parse::<usize>()
}

/// The ASCII digit of value `d`.
pub open spec fn digit_char(d: nat) -> char
    recommends
        d < 10,
{
    if d == 0 {
        '0'
    } else if d == 1 {
        '1'
    } else if d == 2 {
        '2'
    } else if d == 3 {
        '3'
    } else if d == 4 {
        '4'
    } else if d == 5 {
        '5'
    } else if d == 6 {
        '6'
    } else if d == 7 {
        '7'
    } else if d == 8 {
        '8'
    } else {
        '9'
    }
}

/// The shortest decimal spelling of `n`.
pub open spec fn decimal_digits(n: nat) -> Seq<char>
    decreases n,
{
    if n < 10 {
        seq![digit_char(n)]
    } else {
        decimal_digits(n / 10).push(digit_char(n % 10))
    }
}

/// The digit of value `d` as a string of one character.
fn digit_str(d: usize) -> (s: &'static str)
    requires
        d < 10,
    ensures
        s@ == seq![digit_char(d as nat)],
{
    proof {
        reveal_strlit("0");
        reveal_strlit("1");
        reveal_strlit("2");
        reveal_strlit("3");
        reveal_strlit("4");
        reveal_strlit("5");
        reveal_strlit("6");
        reveal_strlit("7");
        reveal_strlit("8");
        reveal_strlit("9");
    }
    let s = match d {
        0 => "0",
        1 => "1",
        2 => "2",
        3 => "3",
        4 => "4",
        5 => "5",
        6 => "6",
        7 => "7",
        8 => "8",
        _ => "9",
    };
    assert(s@ =~= seq![digit_char(d as nat)]);
    s
}

/// The key under which the capture group `index` stands in a captures map.
pub fn render_index(index: usize) -> (key: String)
    ensures
        key@ == decimal_digits(index as nat),
    decreases index,
{
    if index < 10 {
        String::from_str(digit_str(index))
    } else {
        let head = render_index(index / 10);
        let key = head.concat(digit_str(index % 10));
        assert(key@ =~= decimal_digits(index as nat));
        key
    }
}

/// A spelling made by [`decimal_digits`] holds digits only, at least one, and
/// spells the number it was made from.
pub proof fn lemma_decimal_digits(n: nat)
    ensures
        decimal_digits(n).len() > 0,
        all_digits(decimal_digits(n)),
        decimal_value(decimal_digits(n)) == n,
    decreases n,
{
    if n < 10 {
        let s = decimal_digits(n);
        assert(s.drop_last() =~= Seq::<char>::empty());
        assert(decimal_value(s.drop_last()) == 0);
    } else {
        lemma_decimal_digits(n / 10);
        let head = decimal_digits(n / 10);
        let s = decimal_digits(n);
        assert(s.drop_last() =~= head);
        assert(s.last() == digit_char(n % 10));
    }
}

/// Every index is read back from its own spelling: a key made by
/// [`render_index`] is understood by the compiler as the index it was made
/// from.
pub proof fn law_index_round_trip(n: nat)
    requires
        n <= usize::MAX,
    ensures
        capture_index(decimal_digits(n)) == Some(n),
{
    lemma_decimal_digits(n);
    let s = decimal_digits(n);
    assert(is_digit(s[0]));
}

} // verus!
