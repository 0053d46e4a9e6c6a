//! Small text operations: appending a character, comparing, writing numbers in decimal and
//! decoding UTF-8.

use vstd::prelude::*;
use vstd::utf8::{decode_utf8, valid_utf8};

verus! {

/// The decimal digit `digit` as a character.
pub open spec fn digit_char(digit: nat) -> char {
    ('0' as u32 + digit) as char
}

/// The decimal digits of `number`, most significant first, without leading zeros.
pub open spec fn decimal_digits(number: nat) -> Seq<char>
    decreases number,
{
    if number < 10 {
        seq![digit_char(number)]
    } else {
        decimal_digits(number / 10).push(digit_char(number % 10))
    }
}

/// What the standard library says about bytes that are not UTF-8: the text of the
/// `FromUtf8Error` that `String::from_utf8` returns for them.
pub uninterp spec fn utf8_error(bytes: Seq<u8>) -> Seq<char>;

/// Appends a character, as `String::push` does.
#[verifier::external_body]
pub(crate) fn push_char(text: &mut String, c: char)
    ensures
        final(text)@ == old(text)@.push(c),
{
    text.push(c)
}

/// Decodes bytes as UTF-8, as `String::from_utf8` does: the decoded text where the bytes are
/// valid UTF-8, and the text of its error where they are not.
#[verifier::external_body]
pub(crate) fn from_utf8(bytes: Vec<u8>) -> (decoded: Result<String, String>)
    ensures
        decoded is Ok <==> valid_utf8(bytes@),
        decoded matches Ok(text) ==> text@ == decode_utf8(bytes@),
        decoded matches Err(error) ==> error@ == utf8_error(bytes@),
{
    String::from_utf8(bytes).map_err(|error| error.to_string())
}

/// Whether two texts are the same.
pub fn same_text(left: &str, right: &str) -> (same: bool)
    ensures
        same == (left@ == right@),
{
    left.to_owned() == right.to_owned()
}

/// Writes a number in decimal.
pub fn decimal(number: u128) -> (text: String)
    ensures
        text@ == decimal_digits(number as nat),
{
    let mut reversed: Vec<char> = Vec::new();
    let mut rest: u128 = number;
    while rest >= 10
        invariant
            decimal_digits(number as nat) == decimal_digits(rest as nat) + reversed@.reverse(),
        decreases rest,
    {
        let digit: u8 = (rest % 10) as u8;
        let ghost before = reversed@;
        reversed.push(('0' as u8 + digit) as char);
        proof {
            assert(reversed@.reverse() =~= seq![digit_char((rest % 10) as nat)] + before.reverse());
            assert(decimal_digits(rest as nat) == decimal_digits((rest / 10) as nat).push(
                digit_char((rest % 10) as nat),
            ));
            assert(decimal_digits(rest as nat) + before.reverse()
                =~= decimal_digits((rest / 10) as nat) + reversed@.reverse());
        }
        rest = rest / 10;
    }
    let mut text = String::new();
    push_char(&mut text, ('0' as u8 + rest as u8) as char);
    let mut left: usize = reversed.len();
    while left > 0
        invariant
            left <= reversed@.len(),
            decimal_digits(number as nat) == text@ + reversed@.subrange(0, left as int).reverse(),
        decreases left,
    {
        left = left - 1;
        push_char(&mut text, reversed[left]);
        proof {
            assert(reversed@.subrange(0, left + 1).reverse() =~= seq![reversed@[left as int]]
                + reversed@.subrange(0, left as int).reverse());
            assert(decimal_digits(number as nat) =~= text@ + reversed@.subrange(
                0,
                left as int,
            ).reverse());
        }
    }
    text
}

/// Different numbers have different digits, so a number can be read back from its digits.
pub proof fn lemma_digits_tell_numbers(left: nat, right: nat)
    requires
        decimal_digits(left) == decimal_digits(right),
    ensures
        left == right,
    decreases left,
{
    lemma_last_digit(left);
    lemma_last_digit(right);
    if left >= 10 {
        let digits = decimal_digits(left);
        assert(digits.drop_last() =~= decimal_digits(left / 10));
        assert(digits.drop_last() =~= decimal_digits(right / 10));
        lemma_digits_tell_numbers(left / 10, right / 10);
    }
}

/// The last digit is the remainder of ten, and only numbers below ten have one digit.
proof fn lemma_last_digit(number: nat)
    ensures
        decimal_digits(number).len() >= 1,
        decimal_digits(number).len() == 1 <==> number < 10,
        decimal_digits(number).last() as u32 == '0' as u32 + number % 10,
    decreases number,
{
    if number >= 10 {
        lemma_last_digit(number / 10);
    }
}

} // verus!
