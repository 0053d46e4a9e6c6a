//! Decimals: which texts can be read as decimals without an overflow.
//!
//! Arrow reads a decimal with counters of eight and sixteen bits. On a text that makes one of them
//! overflow, what comes of it depends on how Arrow was built.

use vstd::prelude::*;

verus! {

/// Whether `c` is a decimal digit.
pub open spec fn is_digit(c: char) -> bool {
    '0' <= c <= '9'
}

/// Whether `c` marks an exponent.
pub open spec fn is_mark(c: char) -> bool {
    c == 'e' || c == 'E'
}

/// The index behind a sign at `from`, where there is one.
pub open spec fn past_sign(text: Seq<char>, from: int) -> int {
    if 0 <= from < text.len() && (text[from] == '+' || text[from] == '-') {
        from + 1
    } else {
        from
    }
}

/// The index behind the zeros that stand at `from`.
pub open spec fn past_zeros(text: Seq<char>, from: int) -> int
    decreases text.len() - from,
{
    if 0 <= from < text.len() && text[from] == '0' {
        past_zeros(text, from + 1)
    } else {
        from
    }
}

/// The index behind the digits that stand at `from`.
pub open spec fn past_digits(text: Seq<char>, from: int) -> int
    decreases text.len() - from,
{
    if 0 <= from < text.len() && is_digit(text[from]) {
        past_digits(text, from + 1)
    } else {
        from
    }
}

/// Whether a text ends in a digit, or in a point that is not all of it. All other texts are refused
/// at once.
pub open spec fn ends_as_number(text: Seq<char>) -> bool {
    text.len() > 0 && (is_digit(text.last()) || (text.last() == '.' && text.len() > 1))
}

/// What stands behind the mark of an exponent.
pub enum Exponent {
    /// An exponent: whether it is negative, and its value without the sign.
    Read(bool, int),
    /// Something else.
    Refused,
    /// A number that does not fit in a counter of sixteen bits.
    TooLarge,
}

/// The exponent at `from`, behind digits that are worth `value`. One sign can stand anywhere in
/// it.
pub open spec fn read_exponent(
    text: Seq<char>,
    from: int,
    signed: bool,
    negative: bool,
    value: int,
) -> Exponent
    decreases text.len() - from,
{
    if !(0 <= from < text.len()) {
        Exponent::Read(negative, value)
    } else if !signed && (text[from] == '-' || text[from] == '+') {
        read_exponent(text, from + 1, true, text[from] == '-', value)
    } else if is_digit(text[from]) {
        let longer = 10 * value + (text[from] as int - '0' as int);
        if longer > 32767 {
            Exponent::TooLarge
        } else {
            read_exponent(text, from + 1, signed, negative, longer)
        }
    } else {
        Exponent::Refused
    }
}

/// Whether a number fits in a counter of sixteen bits.
pub open spec fn fits_counter(number: int) -> bool {
    -32768 <= number <= 32767
}

/// Whether a number with an exponent can be brought to a scale: no counter overflows, and it is not
/// divided by a power of ten that is zero in 128 bits. The number has `whole` digits before its
/// point and `fraction` digits behind it.
pub open spec fn can_scale(
    whole: int,
    fraction: int,
    negative: bool,
    value: int,
    precision: int,
    scale: int,
) -> bool {
    let digits = if whole + fraction <= 32767 {
        whole + fraction
    } else {
        whole + fraction - 65536
    };
    let point = if negative {
        fraction + value
    } else {
        fraction - value
    };
    let count = if negative && point > digits {
        point
    } else {
        digits
    };
    let shift = scale - point;
    if whole == 0 && fraction == 0 && value == 0 {
        true
    } else if negative && !(fits_counter(digits + scale) && fits_counter(
        value - (digits + scale),
    )) {
        false
    } else if negative && value > digits + scale {
        true
    } else {
        &&& fits_counter(point)
        &&& fits_counter(shift)
        &&& fits_counter(count + shift)
        &&& 0 <= count + shift <= precision ==> shift > -128
    }
}

/// Whether a text can be read as a decimal of a precision and a scale, or refused, without an
/// overflow and without a division by zero. Leading zeros are not counted; behind the point, as many
/// digits as the scale has are counted with eight bits.
pub open spec fn decimal_text(text: Seq<char>, precision: int, scale: int) -> bool {
    let begin = past_zeros(text, past_sign(text, 0));
    let end = past_digits(text, begin);
    let whole = end - begin;
    let behind = if end < text.len() && text[end] == '.' {
        past_digits(text, end + 1)
    } else {
        end
    };
    let fraction = if behind > end {
        behind - end - 1
    } else {
        0
    };
    let counted = if fraction < scale {
        fraction
    } else {
        scale
    };
    if !ends_as_number(text) {
        true
    } else if whole > 255 || whole + counted > 255 {
        false
    } else if behind >= text.len() {
        whole + scale <= 255
    } else if is_mark(text[behind]) {
        &&& fraction <= 32767
        &&& match read_exponent(text, behind + 1, false, false, 0) {
            Exponent::Read(negative, value) => can_scale(
                whole,
                fraction,
                negative,
                value,
                precision,
                scale,
            ),
            Exponent::Refused => true,
            Exponent::TooLarge => false,
        }
    } else {
        true
    }
}

/// The characters of a text.
fn characters(text: &str) -> (characters: Vec<char>)
    ensures
        characters@ == text@,
{
    let mut characters: Vec<char> = Vec::new();
    for c in chars: text.chars()
        invariant
            chars.seq() == text@,
            characters@ == text@.take(chars.index() as int),
    {
        characters.push(c);
        assert(characters@ =~= text@.take(chars.index() + 1));
    }
    assert(text@.take(text@.len() as int) =~= text@);
    characters
}

/// Where a number begins, behind its sign and leading zeros.
fn find_begin(text: &Vec<char>) -> (begin: usize)
    ensures
        begin == past_zeros(text@, past_sign(text@, 0)),
        begin <= text@.len(),
{
    let mut begin: usize = 0;
    if text.len() > 0 && (text[0] == '+' || text[0] == '-') {
        begin = 1;
    }
    while begin < text.len() && text[begin] == '0'
        invariant
            begin <= text@.len(),
            past_zeros(text@, begin as int) == past_zeros(text@, past_sign(text@, 0)),
        decreases text@.len() - begin,
    {
        begin = begin + 1;
    }
    begin
}

/// Where digits end.
fn find_end(text: &Vec<char>, from: usize) -> (end: usize)
    requires
        from <= text@.len(),
    ensures
        end == past_digits(text@, from as int),
        from <= end <= text@.len(),
{
    let mut end: usize = from;
    while end < text.len() && '0' <= text[end] && text[end] <= '9'
        invariant
            from <= end <= text@.len(),
            past_digits(text@, end as int) == past_digits(text@, from as int),
        decreases text@.len() - end,
    {
        end = end + 1;
    }
    end
}

/// Whether an exponent can be read, or refused, and the number with it be brought to a scale.
fn exponent_fits(
    text: &Vec<char>,
    from: usize,
    whole: i64,
    fraction: i64,
    precision: i64,
    scale: i64,
) -> (fits: bool)
    requires
        from <= text@.len(),
        0 <= whole <= 255,
        0 <= fraction <= 32767,
        0 <= precision <= 255,
        -128 <= scale <= 127,
    ensures
        fits == match read_exponent(text@, from as int, false, false, 0) {
            Exponent::Read(negative, value) => can_scale(
                whole as int,
                fraction as int,
                negative,
                value,
                precision as int,
                scale as int,
            ),
            Exponent::Refused => true,
            Exponent::TooLarge => false,
        },
{
    let mut signed: bool = false;
    let mut negative: bool = false;
    let mut value: i64 = 0;
    let mut index: usize = from;
    while index < text.len()
        invariant
            from <= index <= text@.len(),
            0 <= value <= 32767,
            read_exponent(text@, index as int, signed, negative, value as int) == read_exponent(
                text@,
                from as int,
                false,
                false,
                0,
            ),
        decreases text@.len() - index,
    {
        let c = text[index];
        if !signed && (c == '-' || c == '+') {
            signed = true;
            negative = c == '-';
        } else if '0' <= c && c <= '9' {
            let longer: i64 = 10 * value + (c as u32 - '0' as u32) as i64;
            if longer > 32767 {
                return false;
            }
            value = longer;
        } else {
            return true;
        }
        index = index + 1;
    }
    let digits: i64 = if whole + fraction <= 32767 {
        whole + fraction
    } else {
        whole + fraction - 65536
    };
    let point: i64 = if negative {
        fraction + value
    } else {
        fraction - value
    };
    let count: i64 = if negative && point > digits {
        point
    } else {
        digits
    };
    let shift: i64 = scale - point;
    if whole == 0 && fraction == 0 && value == 0 {
        return true;
    }
    if negative {
        if digits + scale > 32767 || digits + scale < -32768 {
            return false;
        }
        let excess: i64 = value - (digits + scale);
        if excess > 32767 || excess < -32768 {
            return false;
        }
        if excess > 0 {
            return true;
        }
    }
    let total: i64 = count + shift;
    -32768 <= point && point <= 32767 && -32768 <= shift && shift <= 32767 && -32768 <= total
        && total <= 32767 && (total < 0 || total > precision || shift > -128)
}

/// Whether a text can be read as a decimal, or refused, without an overflow.
pub fn is_decimal_text(text: &str, precision: u8, scale: i8) -> (fits: bool)
    ensures
        fits == decimal_text(text@, precision as int, scale as int),
{
    let letters = characters(text);
    let length: usize = letters.len();
    if length == 0 {
        return true;
    }
    let last = letters[length - 1];
    if !('0' <= last && last <= '9') && !(last == '.' && length > 1) {
        return true;
    }
    let begin: usize = find_begin(&letters);
    let end: usize = find_end(&letters, begin);
    let mut behind: usize = end;
    let mut fraction: usize = 0;
    if end < length && letters[end] == '.' {
        behind = find_end(&letters, end + 1);
        fraction = behind - end - 1;
    }
    if end - begin > 255 {
        return false;
    }
    let whole: i64 = (end - begin) as i64;
    let scale: i64 = scale as i64;
    let counted: i64 = if fraction < 128 && (fraction as i64) < scale {
        fraction as i64
    } else {
        scale
    };
    if whole + counted > 255 {
        false
    } else if behind >= length {
        whole + scale <= 255
    } else if letters[behind] == 'e' || letters[behind] == 'E' {
        fraction <= 32767 && exponent_fits(
            &letters,
            behind + 1,
            whole,
            fraction as i64,
            precision as i64,
            scale,
        )
    } else {
        true
    }
}

} // verus!
