//! Decimal text of integers, for the error texts that name a number.
use vstd::prelude::*;
use vstd::string::*;

verus! {

/// The character of a decimal digit.
pub open spec fn digit_char(digit: int) -> char {
    if digit == 0 {
        '0'
    } else if digit == 1 {
        '1'
    } else if digit == 2 {
        '2'
    } else if digit == 3 {
        '3'
    } else if digit == 4 {
        '4'
    } else if digit == 5 {
        '5'
    } else if digit == 6 {
        '6'
    } else if digit == 7 {
        '7'
    } else if digit == 8 {
        '8'
    } else {
        '9'
    }
}

/// The decimal digits of a natural number, most significant first, without
/// leading zeros.
pub open spec fn digits_text(number: nat) -> Seq<char>
    decreases number,
{
    if number < 10 {
        seq![digit_char(number as int)]
    } else {
        digits_text(number / 10).push(digit_char((number % 10) as int))
    }
}

/// The decimal text of an integer: its digits, after a minus sign where it
/// is negative.
pub open spec fn decimal_text(number: int) -> Seq<char> {
    if number < 0 {
        seq!['-'] + digits_text((-number) as nat)
    } else {
        digits_text(number as nat)
    }
}

/// The digits of a number are digits: none of them is a minus sign.
pub proof fn lemma_digits_are_digits(number: nat, at: int)
    requires
        0 <= at < digits_text(number).len(),
    ensures
        digits_text(number).len() >= 1,
        number >= 10 ==> digits_text(number).len() >= 2,
        digits_text(number)[at] != '-',
    decreases number,
{
    if number >= 10 {
        lemma_digits_are_digits(number / 10, 0);
        if at < digits_text(number / 10).len() {
            lemma_digits_are_digits(number / 10, at);
        }
    }
}

/// Different numbers have different digits.
pub proof fn lemma_digits_text_is_injective(first: nat, second: nat)
    requires
        digits_text(first) == digits_text(second),
    ensures
        first == second,
    decreases first,
{
    lemma_digits_are_digits(first, 0);
    lemma_digits_are_digits(second, 0);
    if first < 10 {
        assert(digits_text(first)[0] == digit_char(first as int));
        assert(digits_text(second)[0] == digit_char(second as int));
    } else {
        let shorter_first = digits_text(first / 10);
        let shorter_second = digits_text(second / 10);
        assert(shorter_first == digits_text(first).drop_last());
        assert(shorter_second == digits_text(second).drop_last());
        assert(digits_text(first).last() == digit_char((first % 10) as int));
        assert(digits_text(second).last() == digit_char((second % 10) as int));
        lemma_digits_text_is_injective(first / 10, second / 10);
    }
}

/// Different integers have different decimal texts.
pub proof fn lemma_decimal_text_is_injective(first: int, second: int)
    requires
        decimal_text(first) == decimal_text(second),
    ensures
        first == second,
{
    let first_digits = digits_text((if first < 0 { -first } else { first }) as nat);
    let second_digits = digits_text((if second < 0 { -second } else { second }) as nat);
    lemma_digits_are_digits((if first < 0 { -first } else { first }) as nat, 0);
    lemma_digits_are_digits((if second < 0 { -second } else { second }) as nat, 0);
    if first < 0 {
        assert(decimal_text(first)[0] == '-');
        assert(second < 0);
        assert(first_digits == decimal_text(first).subrange(
            1,
            decimal_text(first).len() as int,
        ));
        assert(second_digits == decimal_text(second).subrange(
            1,
            decimal_text(second).len() as int,
        ));
        lemma_digits_text_is_injective((-first) as nat, (-second) as nat);
    } else {
        assert(decimal_text(first)[0] != '-');
        assert(second >= 0);
        lemma_digits_text_is_injective(first as nat, second as nat);
    }
}

/// The text of one decimal digit.
fn digit_str(digit: u128) -> (text: &'static str)
    requires
        digit < 10,
    ensures
        text@ == seq![digit_char(digit as int)],
{
    proof {
        reveal_strlit("0");
        reveal_strlit("1");
        reveal_strlit("2");
        reveal_strlit("3");
        reveal_strlit("4");
        reveal_strlit("5");
        reveal_strlit("6");
        reveal_strlit("7");
        reveal_strlit("8");
        reveal_strlit("9");
    }
    let text = if digit == 0 {
        "0"
    } else if digit == 1 {
        "1"
    } else if digit == 2 {
        "2"
    } else if digit == 3 {
        "3"
    } else if digit == 4 {
        "4"
    } else if digit == 5 {
        "5"
    } else if digit == 6 {
        "6"
    } else if digit == 7 {
        "7"
    } else if digit == 8 {
        "8"
    } else {
        "9"
    };
    assert(text@ =~= seq![digit_char(digit as int)]);
    text
}

/// Writes the decimal digits of a number.
fn digits(number: u128) -> (text: String)
    ensures
        text@ == digits_text(number as nat),
    decreases number,
{
    if number < 10 {
        digit_str(number).to_owned()
    } else {
        let text = digits(number / 10).concat(digit_str(number % 10));
        assert(text@ =~= digits_text(number as nat));
        text
    }
}

/// Writes an integer in decimal.
pub fn decimal(number: i128) -> (text: String)
    ensures
        text@ == decimal_text(number as int),
{
    if number < 0 {
        let magnitude: u128 = (-(number + 1)) as u128 + 1;
        let text = "-".to_owned().concat(digits(magnitude).as_str());
        proof {
            reveal_strlit("-");
            assert(text@ =~= decimal_text(number as int));
        }
        text
    } else {
        digits(number as u128)
    }
}

} // verus!
