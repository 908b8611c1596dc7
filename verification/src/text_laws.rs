//! How numbers are read and written: digit by digit.

use vstd::prelude::*;

use crate::text::{parse_u32, write_decimal};

verus! {

/// The empty text is no number, and of texts with one character only the digits
/// are.
pub proof fn law_the_shortest_numbers(text: &str, number: Option<u32>)
    requires
        call_ensures(parse_u32, (text,), number),
        text@.len() <= 1,
    ensures
        text@.len() == 0 ==> number is None,
        text@.len() == 1 && '0' <= text@[0] && text@[0] <= '9' ==> number == Some(
            (text@[0] as int - 48) as u32,
        ),
        text@.len() == 1 && !('0' <= text@[0] && text@[0] <= '9') ==> number is None,
{
    let digits = crate::text::behind_sign(text@);
    if text@.len() == 1 {
        assert(digits.drop_last() =~= Seq::<char>::empty() || digits.len() == 0);
        assert(crate::text::decimal_value(Seq::<char>::empty()) == 0);
        if '0' <= text@[0] && text@[0] <= '9' {
            assert(digits =~= text@);
            assert(crate::text::is_digit(digits[0]));
        } else if digits.len() == 1 {
            assert(!crate::text::is_digit(digits[0]));
        }
    }
}

/// One more digit makes ten times the number and the digit, where that fits; one
/// more character of any other kind makes no number. What is no number becomes
/// none by one more digit either, except for a plus sign alone.
pub proof fn law_one_more_digit(
    text: &str,
    number: Option<u32>,
    longer: &str,
    larger: Option<u32>,
    c: char,
)
    requires
        call_ensures(parse_u32, (text,), number),
        call_ensures(parse_u32, (longer,), larger),
        text@.len() > 0,
        longer@ == text@.push(c),
    ensures
        !('0' <= c && c <= '9') ==> larger is None,
        '0' <= c && c <= '9' && number is Some && 10 * number->0 + (c as int - 48) <= u32::MAX
            ==> larger == Some((10 * number->0 + (c as int - 48)) as u32),
        '0' <= c && c <= '9' && number is Some && 10 * number->0 + (c as int - 48) > u32::MAX
            ==> larger is None,
        number is None && text@ != seq!['+'] ==> larger is None,
        '0' <= c && c <= '9' && text@ == seq!['+'] ==> larger == Some((c as int - 48) as u32),
{
    let digits = crate::text::behind_sign(text@);
    let more = crate::text::behind_sign(longer@);
    assert(more =~= digits.push(c));
    assert(more.drop_last() =~= digits);
    assert(more.last() == c);
    if crate::text::all_digits(more) {
        assert(crate::text::is_digit(more[more.len() - 1]));
        assert forall|i: int| 0 <= i < digits.len() implies crate::text::is_digit(
            #[trigger] digits[i],
        ) by {
            assert(crate::text::is_digit(more[i]));
        }
    }
    if crate::text::all_digits(digits) && crate::text::is_digit(c) {
        assert forall|i: int| 0 <= i < more.len() implies crate::text::is_digit(
            #[trigger] more[i],
        ) by {
            if i < digits.len() {
                assert(crate::text::is_digit(digits[i]));
            }
        }
    }
    if digits.len() == 0 {
        assert(text@ =~= seq!['+']);
        assert(more =~= seq![c]);
        assert(crate::text::decimal_value(digits) == 0);
        if '0' <= c && c <= '9' {
            assert(crate::text::is_digit(more[0]));
        }
    }
    if text@ == seq!['+'] {
        assert(digits.len() == 0);
    }
}

/// Numbers below ten are written as their digit, and others as what is written
/// of their tenth with their last digit behind it.
pub proof fn law_written_digit_by_digit(n: u32, text: String, tenth: String)
    requires
        call_ensures(write_decimal, (n,), text),
        call_ensures(write_decimal, (n / 10,), tenth),
    ensures
        n < 10 ==> text@ == seq![(48 + n) as char],
        n >= 10 ==> text@ == tenth@.push((48 + n % 10) as char),
{
    if n < 10 {
        assert(text@ =~= seq![(48 + n) as char]);
    }
}

/// What is written is read back as the number that it was.
pub proof fn law_written_and_read(n: u32, text: String, copy: &str, number: Option<u32>)
    requires
        call_ensures(write_decimal, (n,), text),
        call_ensures(parse_u32, (copy,), number),
        copy@ == text@,
    ensures
        number == Some(n),
{
    crate::text::law_decimal_is_read_back(n);
}

/// Two numbers are written differently.
pub proof fn law_numbers_are_told_apart(m: u32, n: u32, text: String, other: String)
    requires
        call_ensures(write_decimal, (m,), text),
        call_ensures(write_decimal, (n,), other),
        text@ == other@,
    ensures
        m == n,
{
    crate::text::law_decimal_value(m as nat);
    crate::text::law_decimal_value(n as nat);
}

/// A page tells its visitor how many have visited it, the visitor included, and
/// counts them one by one.
pub proof fn law_visitors_are_counted(
    visits: &mut crate::visits::Visits,
    text: String,
    number: String,
)
    requires
        call_ensures(crate::visits::Visits::visit, (visits,), text),
        old(visits).count < u32::MAX,
        call_ensures(write_decimal, ((old(visits).count + 1) as u32,), number),
    ensures
        final(visits).count == old(visits).count + 1,
        text@ == "This site has been visited "@ + number@ + " times"@,
{
}

/// A page that was not visited yet has no visits, and can be visited until its
/// counter is full.
pub proof fn law_a_page_waits_for_visitors(
    fresh: crate::visits::Visits,
    visits: &mut crate::visits::Visits,
)
    requires
        call_ensures(crate::visits::Visits::new, (), fresh),
    ensures
        fresh.count == 0,
        old(visits).count < u32::MAX ==> call_requires(crate::visits::Visits::visit, (visits,)),
{
}

} // verus!
