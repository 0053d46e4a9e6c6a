//! Laws of decoding: which documents a table can take, and which texts are decimals.

use vstd::prelude::*;

use crate::arrow_data::{decodable, takes, ArrowField, ArrowType};
use crate::decimal::{
    can_scale, decimal_text, ends_as_number, is_digit, past_digits, past_sign, past_zeros,
    read_exponent, Exponent,
};
use crate::decoding::{lemma_mended, mended};
use crate::json::{float_text, Json};
use crate::laws::rows::number_of;

verus! {

/// Whether values of a type are not bounded: nothing in it is of fixed size or a decimal.
pub open spec fn takes_all(data_type: ArrowType) -> bool
    decreases data_type,
{
    match data_type {
        ArrowType::FixedBytes(_) | ArrowType::Decimal(_, _) => false,
        ArrowType::List(field) => takes_all(field.data_type),
        ArrowType::LargeList(field) => takes_all(field.data_type),
        ArrowType::Mapping(field, _) => match field.data_type {
            ArrowType::Struct(pair) => forall|i: int|
                0 <= i < pair.len() ==> takes_all((#[trigger] pair[i]).data_type),
            _ => true,
        },
        ArrowType::Struct(fields) => forall|i: int|
            0 <= i < fields.len() ==> takes_all((#[trigger] fields[i]).data_type),
        _ => true,
    }
}

/// A column whose type is not bounded takes all documents.
pub proof fn lemma_unbounded_takes_all(data_type: ArrowType, document: Json)
    requires
        takes_all(data_type),
    ensures
        decodable(data_type, document),
        mended(data_type, document) == document,
    decreases data_type,
{
    match data_type {
        ArrowType::List(field) => {
            if let Json::Array(items) = document {
                assert forall|i: int| 0 <= i < items.len() implies decodable(
                    field.data_type,
                    #[trigger] items[i],
                ) by {
                    lemma_unbounded_takes_all(field.data_type, items[i]);
                }
            }
        },
        ArrowType::LargeList(field) => {
            if let Json::Array(items) = document {
                assert forall|i: int| 0 <= i < items.len() implies decodable(
                    field.data_type,
                    #[trigger] items[i],
                ) by {
                    lemma_unbounded_takes_all(field.data_type, items[i]);
                }
            }
        },
        ArrowType::Mapping(field, _) => {
            if let (ArrowType::Struct(pair), Json::Object(members)) = (field.data_type, document) {
                if pair.len() == 2 {
                    assert(takes_all(pair[0].data_type));
                    assert(takes_all(pair[1].data_type));
                    assert forall|i: int| 0 <= i < members.len() implies decodable(
                        pair[1].data_type,
                        (#[trigger] members[i]).1,
                    ) by {
                        lemma_unbounded_takes_all(pair[1].data_type, members[i].1);
                    }
                }
            }
        },
        ArrowType::Struct(fields) => {
            if let Json::Object(members) = document {
                assert forall|i: int, j: int| #[trigger]
                    takes(fields, members, i, j) implies decodable(
                    fields[i].data_type,
                    members[j].1,
                ) by {
                    assert(takes_all(fields[i].data_type));
                    lemma_unbounded_takes_all(fields[i].data_type, members[j].1);
                }
            }
        },
        _ => {},
    }
    lemma_mended(data_type, document);
}

/// A value of fixed size is a text or null. A decimal is a text or a float that can be read as
/// one, or no text and no float.
pub proof fn lemma_bounded_values(width: i32, precision: u8, scale: i8, document: Json)
    ensures
        decodable(ArrowType::FixedBytes(width), document) <==> {
            document is Text || document is Null
        },
        decodable(ArrowType::Decimal(precision, scale), document) <==> match document {
            Json::Text(text) => decimal_text(text, precision as int, scale as int),
            Json::Float(bits) => decimal_text(float_text(bits), precision as int, scale as int),
            _ => true,
        },
{
}

/// A list is decodable where each of its items is.
pub proof fn lemma_decodable_lists(field: ArrowField, items: Seq<Json>)
    ensures
        decodable(ArrowType::List(Box::new(field)), Json::Array(items)) <==> forall|i: int|
            0 <= i < items.len() ==> decodable(field.data_type, #[trigger] items[i]),
        decodable(ArrowType::LargeList(Box::new(field)), Json::Array(items)) <==> forall|i: int|
            0 <= i < items.len() ==> decodable(field.data_type, #[trigger] items[i]),
{
    let array = Json::Array(items);
    assert(array->Array_0 == items);
    if decodable(ArrowType::List(Box::new(field)), array) {
        assert forall|i: int| 0 <= i < items.len() implies decodable(
            field.data_type,
            #[trigger] items[i],
        ) by {
            assert(decodable(field.data_type, array->Array_0[i]));
        }
    }
    if decodable(ArrowType::LargeList(Box::new(field)), array) {
        assert forall|i: int| 0 <= i < items.len() implies decodable(
            field.data_type,
            #[trigger] items[i],
        ) by {
            assert(decodable(field.data_type, array->Array_0[i]));
        }
    }
}

/// Whether a member comes to stand in a field: they have one name, no earlier field has it, and no
/// later member.
pub open spec fn lands_in(
    fields: Seq<ArrowField>,
    members: Seq<(Seq<char>, Json)>,
    field: int,
    member: int,
) -> bool {
    &&& 0 <= field < fields.len()
    &&& 0 <= member < members.len()
    &&& fields[field].name == members[member].0
    &&& forall|i: int| 0 <= i < field ==> (#[trigger] fields[i]).name != members[member].0
    &&& forall|j: int|
        member < j < members.len() ==> (#[trigger] members[j]).0 != members[member].0
}

/// An object is decodable where each member that comes to stand in a field is; members for which
/// there is no field do not count.
pub proof fn lemma_decodable_objects(fields: Seq<ArrowField>, members: Seq<(Seq<char>, Json)>)
    ensures
        decodable(ArrowType::Struct(fields), Json::Object(members)) <==> forall|i: int, j: int|
            #[trigger] lands_in(fields, members, i, j) ==> decodable(
                fields[i].data_type,
                members[j].1,
            ),
{
    let object = Json::Object(members);
    assert(object->Object_0 == members);
    assert forall|i: int, j: int| #[trigger] lands_in(fields, members, i, j) == takes(
        fields,
        members,
        i,
        j,
    ) by {
        if takes(fields, members, i, j) {
            assert forall|k: int| 0 <= k < i implies (#[trigger] fields[k]).name
                != members[j].0 by {
                assert(fields[k].name != fields[i].name);
            }
        }
    }
    if decodable(ArrowType::Struct(fields), object) {
        assert forall|i: int, j: int| #[trigger] lands_in(fields, members, i, j) implies decodable(
            fields[i].data_type,
            members[j].1,
        ) by {
            assert(takes(fields, object->Object_0, i, j));
        }
    } else {
        let (i, j) = choose|i: int, j: int| #[trigger]
            takes(fields, members, i, j) && !decodable(fields[i].data_type, members[j].1);
        assert(lands_in(fields, members, i, j));
    }
}

/// Whether all characters of a text are decimal digits.
pub open spec fn all_digits(text: Seq<char>) -> bool {
    forall|i: int| 0 <= i < text.len() ==> '0' <= #[trigger] text[i] <= '9'
}

/// Whether a text is a sign, or empty.
pub open spec fn is_sign(text: Seq<char>) -> bool {
    text.len() == 0 || (text.len() == 1 && (text[0] == '+' || text[0] == '-'))
}

/// A number in parts: a sign, leading zeros, the digits before the point from the first that is no
/// zero on, and the digits behind the point, where there is one.
pub struct Number {
    pub sign: Seq<char>,
    pub zeros: nat,
    pub whole: Seq<char>,
    pub fraction: Option<Seq<char>>,
}

impl Number {
    /// Whether the parts are what they are to be, and there is a digit.
    pub open spec fn well_formed(self) -> bool {
        &&& is_sign(self.sign)
        &&& all_digits(self.whole)
        &&& self.whole.len() > 0 ==> self.whole[0] != '0'
        &&& self.fraction matches Some(digits) ==> all_digits(digits)
        &&& self.zeros + self.whole.len() + self.fraction_length() > 0
    }

    /// How many digits stand behind the point.
    pub open spec fn fraction_length(self) -> nat {
        match self.fraction {
            Some(digits) => digits.len(),
            None => 0,
        }
    }

    /// What stands from the point on.
    pub open spec fn from_point(self) -> Seq<char> {
        match self.fraction {
            Some(digits) => seq!['.'] + digits,
            None => Seq::empty(),
        }
    }

    /// The number as text.
    pub open spec fn text(self) -> Seq<char> {
        self.sign + Seq::new(self.zeros, |i: int| '0') + self.whole + self.from_point()
    }
}

/// Zeros end where something else begins.
proof fn lemma_past_zeros(text: Seq<char>, from: int, count: nat)
    requires
        0 <= from,
        from + count <= text.len(),
        forall|i: int| from <= i < from + count ==> #[trigger] text[i] == '0',
        from + count < text.len() ==> text[from + count] != '0',
    ensures
        past_zeros(text, from) == from + count,
    decreases count,
{
    if count > 0 {
        assert(text[from] == '0');
        lemma_past_zeros(text, from + 1, (count - 1) as nat);
    }
}

/// Digits end where something else begins.
proof fn lemma_past_digits(text: Seq<char>, from: int, count: nat)
    requires
        0 <= from,
        from + count <= text.len(),
        forall|i: int| from <= i < from + count ==> '0' <= #[trigger] text[i] <= '9',
        from + count < text.len() ==> !is_digit(text[from + count]),
    ensures
        past_digits(text, from) == from + count,
    decreases count,
{
    if count > 0 {
        assert('0' <= text[from] <= '9');
        lemma_past_digits(text, from + 1, (count - 1) as nat);
    }
}

/// Where the parts of a number end, with an exponent or nothing behind it.
proof fn lemma_number_parts(number: Number, tail: Seq<char>)
    requires
        number.well_formed(),
        tail.len() > 0 ==> tail[0] == 'e' || tail[0] == 'E',
    ensures
        ({
            let text = number.text() + tail;
            let begin = number.sign.len() + number.zeros as int;
            let end = begin + number.whole.len();
            &&& past_zeros(text, past_sign(text, 0)) == begin
            &&& past_digits(text, begin) == end
            &&& match number.fraction {
                Some(digits) => {
                    &&& text[end] == '.'
                    &&& end < text.len()
                    &&& past_digits(text, end + 1) == end + 1 + digits.len()
                },
                None => end < text.len() ==> text[end] != '.',
            }
            &&& number.text().len() == end + number.from_point().len()
            &&& tail.len() > 0 ==> text[number.text().len() as int] == tail[0]
        }),
{
    let text = number.text() + tail;
    let zeros = Seq::new(number.zeros, |i: int| '0');
    let first = number.sign.len() as int;
    let begin = first + number.zeros as int;
    let end = begin + number.whole.len();
    let point = number.from_point();
    assert forall|i: int| 0 <= i < text.len() implies #[trigger] text[i] == if i < first {
        number.sign[i]
    } else if i < begin {
        '0'
    } else if i < end {
        number.whole[i - begin]
    } else if i < end + point.len() {
        point[i - end]
    } else {
        tail[i - end - point.len()]
    } by {}
    assert(past_sign(text, 0) == first) by {
        if first == 0 && text.len() > 0 {
            if begin == 0 && end > 0 {
                assert('0' <= number.whole[0] <= '9');
            }
        }
    }
    assert(begin < text.len() ==> text[begin] != '0');
    lemma_past_zeros(text, first, number.zeros);
    assert forall|i: int| begin <= i < end implies '0' <= #[trigger] text[i] <= '9' by {
        assert('0' <= number.whole[i - begin] <= '9');
    }
    lemma_past_digits(text, begin, number.whole.len());
    if let Some(digits) = number.fraction {
        assert forall|i: int| end + 1 <= i < end + 1 + digits.len() implies '0'
            <= #[trigger] text[i] <= '9' by {
            assert('0' <= digits[i - end - 1] <= '9');
        }
        lemma_past_digits(text, end + 1, digits.len());
    }
}

/// A number without an exponent is a decimal of a scale where its digits before the point, without
/// leading zeros, leave room for that many digits behind it in a counter of eight bits.
pub proof fn lemma_plain_decimals(number: Number, precision: int, scale: int)
    requires
        number.well_formed(),
        scale >= 0,
    ensures
        decimal_text(number.text(), precision, scale) <==> number.whole.len() + scale <= 255,
{
    lemma_number_parts(number, Seq::empty());
    let text = number.text();
    assert(text + Seq::empty() =~= text);
    assert(ends_as_number(text)) by {
        match number.fraction {
            Some(digits) => {
                if digits.len() > 0 {
                    assert(text.last() == digits[digits.len() - 1]);
                    assert('0' <= digits[digits.len() - 1] <= '9');
                } else {
                    assert(text.last() == '.');
                }
            },
            None => {
                if number.whole.len() > 0 {
                    assert(text.last() == number.whole[number.whole.len() - 1]);
                    assert('0' <= number.whole[number.whole.len() - 1] <= '9');
                } else {
                    assert(text.last() == '0');
                }
            },
        }
    }
}

/// A text that ends neither in a digit nor in a point is refused at once, and so is a point alone:
/// they cannot overflow.
pub proof fn lemma_other_texts(text: Seq<char>, precision: int, scale: int)
    requires
        text.len() == 0 || text == seq!['.'] || {
            &&& !('0' <= text[text.len() - 1] <= '9')
            &&& text[text.len() - 1] != '.'
        },
    ensures
        decimal_text(text, precision, scale),
{
}

/// The first digits are worth no more than all.
proof fn lemma_first_digits_less(digits: Seq<char>, count: int)
    requires
        all_digits(digits),
        0 <= count <= digits.len(),
    ensures
        number_of(digits.subrange(0, count)) <= number_of(digits),
    decreases digits.len() - count,
{
    if count < digits.len() {
        lemma_first_digits_less(digits, count + 1);
        assert(digits.subrange(0, count + 1).drop_last() =~= digits.subrange(0, count));
        assert('0' <= digits[count] <= '9');
    } else {
        assert(digits.subrange(0, count) =~= digits);
    }
}

/// Digits are read as the number that they are, unless it is too large.
proof fn lemma_read_digits(
    text: Seq<char>,
    start: int,
    from: int,
    signed: bool,
    negative: bool,
)
    requires
        0 <= start <= from <= text.len(),
        all_digits(text.subrange(start, text.len() as int)),
        number_of(text.subrange(start, from)) <= 32767,
    ensures
        read_exponent(
            text,
            from,
            signed,
            negative,
            number_of(text.subrange(start, from)) as int,
        ) == if number_of(text.subrange(start, text.len() as int)) > 32767 {
            Exponent::TooLarge
        } else {
            Exponent::Read(
                negative,
                number_of(text.subrange(start, text.len() as int)) as int,
            )
        },
    decreases text.len() - from,
{
    let all = text.subrange(start, text.len() as int);
    if from < text.len() {
        assert(all[from - start] == text[from]);
        assert('0' <= text[from] <= '9');
        let longer = text.subrange(start, from + 1);
        assert(longer.drop_last() =~= text.subrange(start, from));
        assert(longer.last() == text[from]);
        assert(all.subrange(0, from + 1 - start) =~= longer);
        lemma_first_digits_less(all, from + 1 - start);
        if number_of(longer) <= 32767 {
            lemma_read_digits(text, start, from + 1, signed, negative);
        }
    }
}

/// An exponent is read as the number that it is, unless it is too large.
proof fn lemma_read_exponent(text: Seq<char>, from: int, sign: Seq<char>, digits: Seq<char>)
    requires
        0 <= from <= text.len(),
        is_sign(sign),
        all_digits(digits),
        text.subrange(from, text.len() as int) == sign + digits,
    ensures
        read_exponent(text, from, false, false, 0) == if number_of(digits) > 32767 {
            Exponent::TooLarge
        } else {
            Exponent::Read(sign == seq!['-'], number_of(digits) as int)
        },
{
    let rest = text.subrange(from, text.len() as int);
    let start = from + sign.len();
    assert(rest.len() == text.len() - from);
    let behind = text.subrange(start, text.len() as int);
    assert(behind =~= rest.subrange(sign.len() as int, rest.len() as int));
    assert(behind =~= digits);
    assert(text.subrange(start, start) =~= Seq::empty());
    if sign.len() > 0 {
        assert(rest[0] == sign[0]);
        assert(text[from] == sign[0]);
        assert(sign =~= seq![sign[0]]);
        lemma_read_digits(text, start, start, true, sign[0] == '-');
    } else {
        lemma_read_digits(text, start, start, false, false);
    }
}

/// A number with an exponent behind it.
pub open spec fn with_exponent(
    number: Number,
    mark: char,
    sign: Seq<char>,
    digits: Seq<char>,
) -> Seq<char> {
    number.text() + (seq![mark] + sign + digits)
}

/// What decides on a number with an exponent.
proof fn lemma_exponent_decides(
    number: Number,
    mark: char,
    sign: Seq<char>,
    digits: Seq<char>,
    precision: int,
    scale: int,
)
    requires
        number.well_formed(),
        mark == 'e' || mark == 'E',
        is_sign(sign),
        all_digits(digits),
        digits.len() > 0,
        scale >= 0,
    ensures
        ({
            let whole = number.whole.len() as int;
            let fraction = number.fraction_length() as int;
            let counted = if fraction < scale {
                fraction
            } else {
                scale
            };
            decimal_text(with_exponent(number, mark, sign, digits), precision, scale) <==> {
                &&& whole + counted <= 255
                &&& fraction <= 32767
                &&& number_of(digits) <= 32767
                &&& can_scale(
                    whole,
                    fraction,
                    sign == seq!['-'],
                    number_of(digits) as int,
                    precision,
                    scale,
                )
            }
        }),
{
    let tail = seq![mark] + sign + digits;
    let text = number.text() + tail;
    let behind = number.text().len() as int;
    lemma_number_parts(number, tail);
    assert(text.subrange(behind + 1, text.len() as int) =~= sign + digits);
    lemma_read_exponent(text, behind + 1, sign, digits);
    assert(text.last() == digits[digits.len() - 1]);
    assert('0' <= digits[digits.len() - 1] <= '9');
}

/// A number with an exponent that is too large for a counter of sixteen bits is no decimal; nor is
/// one with too many digits before or behind its point.
pub proof fn lemma_too_long_decimals(
    number: Number,
    mark: char,
    sign: Seq<char>,
    digits: Seq<char>,
    precision: int,
    scale: int,
)
    requires
        number.well_formed(),
        mark == 'e' || mark == 'E',
        is_sign(sign),
        all_digits(digits),
        digits.len() > 0,
        scale >= 0,
        number_of(digits) > 32767 || number.fraction_length() > 32767 || number.whole.len() > 255,
    ensures
        !decimal_text(with_exponent(number, mark, sign, digits), precision, scale),
{
    lemma_exponent_decides(number, mark, sign, digits, precision, scale);
}

/// A number with an exponent whose counts all fit in sixteen bits is a decimal unless bringing it
/// to the scale divides it by a power of ten beyond 127, with no more digits left than the
/// precision has.
pub proof fn lemma_decimals_with_exponent(
    number: Number,
    mark: char,
    sign: Seq<char>,
    digits: Seq<char>,
    precision: int,
    scale: int,
)
    requires
        number.well_formed(),
        mark == 'e' || mark == 'E',
        is_sign(sign),
        all_digits(digits),
        digits.len() > 0,
        0 <= scale,
        number.whole.len() + scale <= 255,
        number.whole.len() + number.fraction_length() + scale <= 32767,
        number.fraction_length() + number_of(digits) <= 32767,
        number.whole.len() + scale + number_of(digits) <= 32767,
    ensures
        ({
            let whole = number.whole.len() as int;
            let fraction = number.fraction_length() as int;
            let exponent = number_of(digits) as int;
            let left = if whole > exponent {
                whole - exponent
            } else {
                0
            };
            decimal_text(with_exponent(number, mark, sign, digits), precision, scale) <==> {
                ||| whole == 0 && fraction == 0 && exponent == 0
                ||| sign == seq!['-'] && exponent > whole + fraction + scale
                ||| sign == seq!['-'] && !(scale + left <= precision && fraction + exponent - scale
                    >= 128)
                ||| sign != seq!['-'] && !(whole + scale + exponent <= precision && fraction
                    - exponent - scale >= 128)
            }
        }),
{
    lemma_exponent_decides(number, mark, sign, digits, precision, scale);
}

/// Where a counter of sixteen bits would overflow, a number with an exponent is no decimal. A
/// number that is so small that nothing of it is left at the scale is one, however small it is.
pub proof fn lemma_overflowing_exponents(
    number: Number,
    mark: char,
    sign: Seq<char>,
    digits: Seq<char>,
    precision: int,
    scale: int,
)
    requires
        number.well_formed(),
        mark == 'e' || mark == 'E',
        is_sign(sign),
        all_digits(digits),
        digits.len() > 0,
        0 <= scale,
        number.whole.len() + scale <= 255,
        number.fraction_length() <= 32767,
        number_of(digits) <= 32767,
    ensures
        ({
            let whole = number.whole.len() as int;
            let fraction = number.fraction_length() as int;
            let exponent = number_of(digits) as int;
            let text = with_exponent(number, mark, sign, digits);
            &&& whole + fraction <= 32767 && sign != seq!['-'] && whole + scale + exponent > 32767
                ==> !decimal_text(text, precision, scale)
            &&& whole + fraction <= 32767 && sign == seq!['-'] && whole + fraction + scale > 32767
                ==> !decimal_text(text, precision, scale)
            &&& whole + fraction + scale <= 32767 && sign == seq!['-'] && exponent > whole
                + fraction + scale ==> decimal_text(text, precision, scale)
            &&& whole + fraction + scale <= 32767 && sign == seq!['-'] && exponent <= whole
                + fraction + scale && fraction + exponent > 32767 ==> !decimal_text(
                text,
                precision,
                scale,
            )
        }),
{
    lemma_exponent_decides(number, mark, sign, digits, precision, scale);
}

/// With more digits than a counter of sixteen bits holds, that counter goes on below zero: then a
/// number is a decimal where its exponent brings the counter back into its range.
pub proof fn lemma_wrapped_counts(
    number: Number,
    mark: char,
    sign: Seq<char>,
    digits: Seq<char>,
    precision: int,
    scale: int,
)
    requires
        number.well_formed(),
        mark == 'e' || mark == 'E',
        is_sign(sign),
        all_digits(digits),
        digits.len() > 0,
        0 <= scale <= 127,
        number.whole.len() + scale <= 255,
        number.fraction_length() <= 32767,
        number.whole.len() + number.fraction_length() > 32767,
        number_of(digits) <= 32767,
    ensures
        ({
            let whole = number.whole.len() as int;
            let fraction = number.fraction_length() as int;
            let exponent = number_of(digits) as int;
            decimal_text(with_exponent(number, mark, sign, digits), precision, scale) <==> if sign
                == seq!['-'] {
                exponent + 32769 <= whole + fraction + scale
            } else {
                whole + scale + exponent >= 32768
            }
        }),
{
    lemma_exponent_decides(number, mark, sign, digits, precision, scale);
}

} // verus!
