//! Numbers written in decimal digits.

use vstd::prelude::*;

verus! {

/// The character of a digit.
pub open spec fn spec_digit(value: nat) -> char {
    if value == 0 {
        '0'
    } else if value == 1 {
        '1'
    } else if value == 2 {
        '2'
    } else if value == 3 {
        '3'
    } else if value == 4 {
        '4'
    } else if value == 5 {
        '5'
    } else if value == 6 {
        '6'
    } else if value == 7 {
        '7'
    } else if value == 8 {
        '8'
    } else {
        '9'
    }
}

/// A number in decimal digits, without leading zeros.
pub open spec fn decimal(number: nat) -> Seq<char>
    decreases number,
{
    if number < 10 {
        seq![spec_digit(number)]
    } else {
        decimal(number / 10).push(spec_digit(number % 10))
    }
}

fn digit_char(value: u64) -> (c: char)
    requires
        value < 10,
    ensures
        c == spec_digit(value as nat),
{
    match value {
        0 => '0',
        1 => '1',
        2 => '2',
        3 => '3',
        4 => '4',
        5 => '5',
        6 => '6',
        7 => '7',
        8 => '8',
        _ => '9',
    }
}

/// Appends a number in decimal digits.
pub fn push_decimal(text: &mut String, number: u64)
    ensures
        final(text)@ == old(text)@ + decimal(number as nat),
    decreases number,
{
    let ghost start = text@;
    if number >= 10 {
        push_decimal(text, number / 10);
    }
    text.push(digit_char(number % 10));
    assert(text@ =~= start + decimal(number as nat));
}

/// Writes a number in decimal digits.
pub fn to_decimal(number: u64) -> (text: String)
    ensures
        text@ == decimal(number as nat),
{
    let mut text = String::new();
    push_decimal(&mut text, number);
    assert(text@ =~= decimal(number as nat));
    text
}

/// The number that decimal digits stand for.
pub open spec fn value_of(digits: Seq<char>) -> int
    decreases digits.len(),
{
    if digits.len() == 0 {
        0
    } else {
        10 * value_of(digits.drop_last()) + (digits.last() as int - '0' as int)
    }
}

/// A number in writing stands for the number. It consists of digits, and only zero starts with a zero.
pub proof fn law_written_number_reads_back(number: nat)
    ensures
        value_of(decimal(number)) == number,
        decimal(number).len() > 0,
        number > 0 ==> decimal(number)[0] != '0',
        forall|i: int|
            0 <= i < decimal(number).len() ==> '0' as int <= (#[trigger] decimal(number)[i]) as int
                && decimal(number)[i] as int <= '9' as int,
    decreases number,
{
    if number < 10 {
        let digits = decimal(number);
        assert(digits.drop_last() =~= Seq::<char>::empty());
        reveal_with_fuel(value_of, 2);
    } else {
        law_written_number_reads_back(number / 10);
        let more = decimal(number / 10);
        let digits = decimal(number);
        assert(digits.drop_last() =~= more);
    }
}

} // verus!
