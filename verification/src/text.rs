//! Building messages out of text and numbers.

use vstd::prelude::*;
use vstd::string::StringSliceAdditionalSpecFns;
use vstd::string::StringExecFns;

verus! {

/// The character of a decimal digit.
pub open spec fn decimal_digit(digit: nat) -> char {
    (digit + 48) as char
}

/// A number written out in decimal, without leading zeros.
pub open spec fn decimal(number: nat) -> Seq<char>
    decreases number,
{
    if number < 10 {
        seq![decimal_digit(number)]
    } else {
        decimal(number / 10).push(decimal_digit(number % 10))
    }
}

/// The text of one decimal digit.
fn digit_text(digit: u64) -> (text: &'static str)
    requires
        digit < 10,
    ensures
        text@ == seq![decimal_digit(digit as nat)],
{
    proof {
        reveal_strlit("0");
        reveal_strlit("1");
        reveal_strlit("2");
        reveal_strlit("3");
        reveal_strlit("4");
        reveal_strlit("5");
        reveal_strlit("6");
        reveal_strlit("7");
        reveal_strlit("8");
        reveal_strlit("9");
    }
    let text: &'static str = match digit {
        0 => "0",
        1 => "1",
        2 => "2",
        3 => "3",
        4 => "4",
        5 => "5",
        6 => "6",
        7 => "7",
        8 => "8",
        _ => "9",
    };
    assert(text@ =~= seq![decimal_digit(digit as nat)]);
    text
}

/// Appends `number` in decimal.
pub fn push_decimal(text: &mut String, number: u64)
    ensures
        final(text)@ == old(text)@ + decimal(number as nat),
    decreases number,
{
    if number >= 10 {
        push_decimal(text, number / 10);
    }
    text.append(digit_text(number % 10));
    assert(text@ =~= old(text)@ + decimal(number as nat));
}

/// The text of `before`, then `number` in decimal, then `after`.
pub fn with_number(before: &str, number: u64, after: &str) -> (text: String)
    ensures
        text@ == before@ + decimal(number as nat) + after@,
{
    let mut text: String = before.to_owned();
    push_decimal(&mut text, number);
    text.append(after);
    text
}

/// The three texts, one after the other.
pub fn joined(first: &str, second: &str, third: &str) -> (text: String)
    ensures
        text@ == first@ + second@ + third@,
{
    let mut text: String = first.to_owned();
    text.append(second);
    text.append(third);
    text
}

/// The character of a hexadecimal digit, in lower case.
pub open spec fn hexadecimal_digit(digit: nat) -> char {
    if digit < 10 {
        decimal_digit(digit)
    } else {
        (digit + 87) as char
    }
}

/// A number written out in hexadecimal, in lower case, without leading zeros.
pub open spec fn hexadecimal(number: nat) -> Seq<char>
    decreases number,
{
    if number < 16 {
        seq![hexadecimal_digit(number)]
    } else {
        hexadecimal(number / 16).push(hexadecimal_digit(number % 16))
    }
}

/// The text of one hexadecimal digit.
fn hexadecimal_digit_text(digit: u32) -> (text: &'static str)
    requires
        digit < 16,
    ensures
        text@ == seq![hexadecimal_digit(digit as nat)],
{
    if digit < 10 {
        return digit_text(digit as u64);
    }
    proof {
        reveal_strlit("a");
        reveal_strlit("b");
        reveal_strlit("c");
        reveal_strlit("d");
        reveal_strlit("e");
        reveal_strlit("f");
    }
    let text: &'static str = match digit {
        10 => "a",
        11 => "b",
        12 => "c",
        13 => "d",
        14 => "e",
        _ => "f",
    };
    assert(text@ =~= seq![hexadecimal_digit(digit as nat)]);
    text
}

/// Appends `number` in hexadecimal.
pub fn push_hexadecimal(text: &mut String, number: u32)
    ensures
        final(text)@ == old(text)@ + hexadecimal(number as nat),
    decreases number,
{
    if number >= 16 {
        push_hexadecimal(text, number / 16);
    }
    text.append(hexadecimal_digit_text(number % 16));
    assert(text@ =~= old(text)@ + hexadecimal(number as nat));
}

/// The text of `before`, then `number` in hexadecimal, then `after`.
pub fn with_hexadecimal(before: &str, number: u32, after: &str) -> (text: String)
    ensures
        text@ == before@ + hexadecimal(number as nat) + after@,
{
    let mut text: String = before.to_owned();
    push_hexadecimal(&mut text, number);
    text.append(after);
    text
}

/// Whether two texts are the same.
pub fn same_text(a: &str, b: &str) -> (same: bool)
    ensures
        same == (a@ == b@),
{
    proof {
        vstd::utf8::encode_utf8_decode_utf8(a@);
        vstd::utf8::encode_utf8_decode_utf8(b@);
    }
    let left: &[u8] = a.as_bytes();
    let right: &[u8] = b.as_bytes();
    if left.len() != right.len() {
        return false;
    }
    let mut index: usize = 0;
    while index < left.len()
        invariant
            index <= left@.len(),
            left@.len() == right@.len(),
            left@ == a.spec_bytes(),
            right@ == b.spec_bytes(),
            forall|i: int| 0 <= i < index ==> left@[i] == right@[i],
        decreases left@.len() - index,
    {
        if left[index] != right[index] {
            return false;
        }
        index += 1;
    }
    assert(left@ =~= right@);
    true
}

/// The number that some digits stand for, in a base.
pub open spec fn value_of(digits: Seq<char>, base: nat) -> nat
    decreases digits.len(),
{
    if digits.len() == 0 {
        0
    } else {
        let last = digits.last();
        value_of(digits.drop_last(), base) * base + (if '0' <= last <= '9' {
            (last as int - '0' as int) as nat
        } else {
            (last as int - 'a' as int + 10) as nat
        })
    }
}

/// A number that is written out in decimal can be read back, and only its ten digits are used.
pub proof fn decimals_can_be_read(number: nat)
    ensures
        value_of(decimal(number), 10) == number,
        forall|i: int| 0 <= i < decimal(number).len() ==> '0' <= #[trigger] decimal(number)[i] <= '9',
        decimal(number).len() > 0,
        number > 0 ==> decimal(number)[0] != '0',
    decreases number,
{
    reveal_with_fuel(value_of, 2);
    if number < 10 {
        assert(decimal(number).drop_last() =~= Seq::empty());
    } else {
        decimals_can_be_read(number / 10);
        assert(decimal(number).drop_last() =~= decimal(number / 10));
    }
}

/// A number that is written out in hexadecimal can be read back, and only its sixteen digits are used, the upper
/// six in lower case.
pub proof fn hexadecimals_can_be_read(number: nat)
    ensures
        value_of(hexadecimal(number), 16) == number,
        forall|i: int|
            0 <= i < hexadecimal(number).len() ==> ('0' <= #[trigger] hexadecimal(number)[i] <= '9' || 'a'
                <= hexadecimal(number)[i] <= 'f'),
        hexadecimal(number).len() > 0,
        number > 0 ==> hexadecimal(number)[0] != '0',
    decreases number,
{
    reveal_with_fuel(value_of, 2);
    if number < 16 {
        assert(hexadecimal(number).drop_last() =~= Seq::empty());
    } else {
        hexadecimals_can_be_read(number / 16);
        assert(hexadecimal(number).drop_last() =~= hexadecimal(number / 16));
    }
}

} // verus!
