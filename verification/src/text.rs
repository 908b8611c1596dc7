//! Plain text: comparison, and numbers written in decimal.

use vstd::prelude::*;

verus! {

/// `String::push` of std: the character is appended to the string.
pub assume_specification[ String::push ](text: &mut String, c: char)
    ensures
        final(text)@ == old(text)@.push(c),
;

/// Whether two strings hold the same characters in the same order.
pub fn same_text(a: &str, b: &str) -> (same: bool)
    ensures
        same == (a@ == b@),
{
    let mut left = a.chars();
    let mut right = b.chars();
    let ghost mut seen: Seq<char> = Seq::empty();
    loop
        invariant
            vstd::std_specs::iter::IteratorSpec::obeys_prophetic_iter_laws(&left),
            vstd::std_specs::iter::IteratorSpec::obeys_prophetic_iter_laws(&right),
            a@ == seen + vstd::std_specs::iter::IteratorSpec::remaining(&left),
            b@ == seen + vstd::std_specs::iter::IteratorSpec::remaining(&right),
        decreases a@.len() - seen.len(),
    {
        let x = left.next();
        let y = right.next();
        match x {
            None => {
                return y.is_none();
            },
            Some(c) => match y {
                None => {
                    return false;
                },
                Some(d) => {
                    if c != d {
                        assert(a@[seen.len() as int] == c);
                        assert(b@[seen.len() as int] == d);
                        return false;
                    }
                    proof {
                        seen = seen.push(c);
                        let rest_a = vstd::std_specs::iter::IteratorSpec::remaining(&left);
                        let rest_b = vstd::std_specs::iter::IteratorSpec::remaining(&right);
                        assert(a@ =~= seen + rest_a);
                        assert(b@ =~= seen + rest_b);
                    }
                },
            },
        }
    }
}

/// A decimal digit.
pub open spec fn is_digit(c: char) -> bool {
    '0' <= c && c <= '9'
}

/// The number that a decimal digit stands for.
pub open spec fn digit_value(c: char) -> nat {
    (c as int - '0' as int) as nat
}

/// One or more characters, all of them decimal digits.
pub open spec fn all_digits(text: Seq<char>) -> bool {
    &&& text.len() > 0
    &&& forall|i: int| 0 <= i < text.len() ==> is_digit(#[trigger] text[i])
}

/// The number that a run of decimal digits stands for.
pub open spec fn decimal_value(digits: Seq<char>) -> nat
    decreases digits.len(),
{
    if digits.len() == 0 {
        0
    } else {
        10 * decimal_value(digits.drop_last()) + digit_value(digits.last())
    }
}

/// What is left of a number's text behind the plus sign that it may begin with.
pub open spec fn behind_sign(text: Seq<char>) -> Seq<char> {
    if text.len() > 0 && text[0] == '+' {
        text.skip(1)
    } else {
        text
    }
}

/// The `u32` that a text stands for: digits alone, behind an optional plus
/// sign, whose value fits.
pub open spec fn parsed_u32(text: Seq<char>) -> Option<u32> {
    let digits = behind_sign(text);
    if all_digits(digits) && decimal_value(digits) <= u32::MAX {
        Some(decimal_value(digits) as u32)
    } else {
        None
    }
}

/// More digits never make a smaller number.
proof fn lemma_prefix_value(digits: Seq<char>, n: int)
    requires
        0 <= n <= digits.len(),
    ensures
        decimal_value(digits.take(n)) <= decimal_value(digits),
    decreases digits.len(),
{
    if n == digits.len() {
        assert(digits.take(n) =~= digits);
    } else {
        lemma_prefix_value(digits.drop_last(), n);
        assert(digits.drop_last().take(n) =~= digits.take(n));
    }
}

/// Reads a `u32` in decimal.
pub fn parse_u32(text: &str) -> (number: Option<u32>)
    ensures
        number == parsed_u32(text@),
{
    let len: usize = text.unicode_len();
    let digits: &str = if len > 0 && text.get_char(0) == '+' {
        text.substring_char(1, len)
    } else {
        text
    };
    assert(digits@ =~= behind_sign(text@));
    let mut value: u32 = 0;
    let mut empty: bool = true;
    for c in it: digits.chars()
        invariant
            it.seq() == digits@,
            digits@ == behind_sign(text@),
            empty == (it.index() == 0),
            forall|i: int| 0 <= i < it.index() ==> is_digit(#[trigger] digits@[i]),
            value == decimal_value(digits@.take(it.index() as int)),
    {
        let ghost n = it.index() as int;
        assert(c == digits@[n]);
        assert(digits@.take(n + 1).drop_last() =~= digits@.take(n));
        proof {
            lemma_prefix_value(digits@, n + 1);
        }
        if c < '0' || c > '9' {
            return None;
        }
        let next: u64 = 10 * (value as u64) + (c as u64 - '0' as u64);
        if next > u32::MAX as u64 {
            return None;
        }
        value = next as u32;
        empty = false;
    }
    assert(digits@.take(digits@.len() as int) =~= digits@);
    if empty {
        None
    } else {
        Some(value)
    }
}

/// The digit that stands for a number below ten.
pub open spec fn digit(n: nat) -> char {
    (n + '0' as nat) as char
}

/// A number in decimal, without a sign and without leading zeros.
pub open spec fn decimal(n: nat) -> Seq<char>
    decreases n,
{
    if n < 10 {
        seq![digit(n)]
    } else {
        decimal(n / 10).push(digit(n % 10))
    }
}

/// Writes a number in decimal.
pub fn write_decimal(n: u32) -> (text: String)
    ensures
        text@ == decimal(n as nat),
    decreases n,
{
    let mut text = if n < 10 {
        String::new()
    } else {
        write_decimal(n / 10)
    };
    let last: u8 = (n % 10) as u8;
    text.push((48u8 + last) as char);
    assert(text@ =~= decimal(n as nat));
    text
}

/// What is written in decimal is made of digits, and they stand for the number.
pub proof fn law_decimal_value(n: nat)
    ensures
        all_digits(decimal(n)),
        decimal_value(decimal(n)) == n,
    decreases n,
{
    if n < 10 {
        assert(decimal(n).drop_last() =~= Seq::<char>::empty());
        assert(decimal_value(decimal(n).drop_last()) == 0);
    } else {
        law_decimal_value(n / 10);
        assert(decimal(n).drop_last() =~= decimal(n / 10));
        assert forall|i: int| 0 <= i < decimal(n).len() implies is_digit(
            #[trigger] decimal(n)[i],
        ) by {
            if i < decimal(n / 10).len() {
                assert(is_digit(decimal(n / 10)[i]));
            }
        }
    }
}

/// A number that was written in decimal is read back.
pub proof fn law_decimal_is_read_back(n: u32)
    ensures
        parsed_u32(decimal(n as nat)) == Some(n),
{
    law_decimal_value(n as nat);
    assert(is_digit(decimal(n as nat)[0]));
    assert(behind_sign(decimal(n as nat)) == decimal(n as nat));
}

} // verus!
