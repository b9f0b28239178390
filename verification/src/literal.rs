use vstd::prelude::*;
use vstd::string::{StrSliceExecFns, StringExecFns};

verus! {

/// The value of a character as a digit, up to the digits of sixteen.
pub open spec fn character_value(character: char) -> Option<int> {
    if '0' <= character <= '9' {
        Some(character as int - '0' as int)
    } else if 'a' <= character <= 'f' {
        Some(character as int - 'a' as int + 10)
    } else if 'A' <= character <= 'F' {
        Some(character as int - 'A' as int + 10)
    } else {
        None
    }
}

/// The value of a character as a digit of a number system.
pub open spec fn digit_value(character: char, radix: int) -> Option<int> {
    match character_value(character) {
        Some(value) => if value < radix {
            Some(value)
        } else {
            None
        },
        None => None,
    }
}

/// The whole number that digits of a number system denote. No digits, or
/// a character that is no digit of the system, denote nothing.
pub open spec fn radix_value(digits: Seq<char>, radix: int) -> Option<int>
    decreases digits.len(),
{
    if digits.len() == 0 {
        None
    } else {
        match digit_value(digits.last(), radix) {
            None => None,
            Some(digit) => if digits.len() == 1 {
                Some(digit)
            } else {
                match radix_value(digits.drop_last(), radix) {
                    Some(value) => Some(value * radix + digit),
                    None => None,
                }
            },
        }
    }
}

/// A value is denoted, and fits the machine's whole numbers.
pub open spec fn bounded(value: Option<int>) -> Option<u64> {
    match value {
        Some(value) => if 0 <= value <= u64::MAX {
            Some(value as u64)
        } else {
            None
        },
        None => None,
    }
}

/// What digits denote is never negative.
pub proof fn lemma_radix_value_not_negative(digits: Seq<char>, radix: int)
    requires
        radix >= 1,
    ensures
        radix_value(digits, radix) matches Some(value) ==> value >= 0,
    decreases digits.len(),
{
    if digits.len() > 1 {
        lemma_radix_value_not_negative(digits.drop_last(), radix);
        match (radix_value(digits.drop_last(), radix), digit_value(digits.last(), radix)) {
            (Some(value), Some(digit)) => {
                assert(value * radix >= 0) by (nonlinear_arith)
                    requires
                        value >= 0,
                        radix >= 1,
                ;
            },
            _ => {},
        }
    }
}

/// More digits denote no less: where all of some digits denote a value,
/// each beginning of them denotes a value that is not larger.
pub proof fn lemma_radix_value_grows(digits: Seq<char>, upto: int, radix: int)
    requires
        radix >= 1,
        0 < upto <= digits.len(),
    ensures
        radix_value(digits, radix) matches Some(value) ==> radix_value(
            digits.subrange(0, upto),
            radix,
        ) matches Some(part) && 0 <= part <= value,
    decreases digits.len(),
{
    if upto == digits.len() {
        assert(digits.subrange(0, upto) =~= digits);
        lemma_radix_value_not_negative(digits, radix);
    } else {
        lemma_radix_value_grows(digits.drop_last(), upto, radix);
        assert(digits.drop_last().subrange(0, upto) =~= digits.subrange(0, upto));
        match (radix_value(digits.drop_last(), radix), digit_value(digits.last(), radix)) {
            (Some(value), Some(digit)) => {
                assert(value * radix >= value) by (nonlinear_arith)
                    requires
                        value >= 0,
                        radix >= 1,
                ;
            },
            _ => {},
        }
    }
}

/// Decides [`digit_value`].
pub fn digit_of(character: char, radix: u64) -> (value: Option<u64>)
    requires
        radix <= 16,
    ensures
        match value {
            Some(digit) => digit_value(character, radix as int) == Some(digit as int),
            None => digit_value(character, radix as int) is None,
        },
{
    let code = character as u32;
    let value: u64 = if '0' <= character && character <= '9' {
        (code - '0' as u32) as u64
    } else if 'a' <= character && character <= 'f' {
        (code - 'a' as u32) as u64 + 10
    } else if 'A' <= character && character <= 'F' {
        (code - 'A' as u32) as u64 + 10
    } else {
        return None;
    };
    if value < radix {
        Some(value)
    } else {
        None
    }
}

/// Reads a whole number in a number system of at most sixteen digits. The
/// text has a value if it is made of digits of the system, at least one,
/// and the number fits 64 bits.
pub fn parse_radix(text: &str, radix: u64) -> (value: Option<u64>)
    requires
        1 <= radix <= 16,
    ensures
        value == bounded(radix_value(text@, radix as int)),
{
    let count = text.unicode_len();
    if count == 0 {
        return None;
    }
    let mut value: u64 = 0;
    let mut index: usize = 0;
    while index < count
        invariant
            0 <= index <= count,
            count == text@.len(),
            1 <= radix <= 16,
            index > 0 ==> radix_value(text@.subrange(0, index as int), radix as int) == Some(
                value as int,
            ),
            index == 0 ==> value == 0,
        decreases count - index,
    {
        let ghost prefix = text@.subrange(0, index + 1);
        proof {
            assert(prefix.last() == text@[index as int]);
            assert(prefix.drop_last() =~= text@.subrange(0, index as int));
        }
        let digit = match digit_of(text.get_char(index), radix) {
            Some(digit) => digit,
            None => {
                proof {
                    lemma_prefix_without_value(text@, index + 1, radix as int);
                }
                return None;
            },
        };
        let next = if index == 0 {
            Some(digit)
        } else {
            match value.checked_mul(radix) {
                Some(scaled) => scaled.checked_add(digit),
                None => None,
            }
        };
        match next {
            Some(next) => {
                value = next;
            },
            None => {
                proof {
                    assert(radix_value(prefix, radix as int) == Some(value * radix + digit));
                    lemma_radix_value_grows(text@, index + 1, radix as int);
                }
                return None;
            },
        }
        index += 1;
    }
    assert(text@.subrange(0, index as int) =~= text@);
    Some(value)
}

/// Where a beginning of some digits denotes nothing, all of them denote
/// nothing.
pub proof fn lemma_prefix_without_value(digits: Seq<char>, upto: int, radix: int)
    requires
        0 < upto <= digits.len(),
        radix_value(digits.subrange(0, upto), radix) is None,
    ensures
        radix_value(digits, radix) is None,
    decreases digits.len(),
{
    if upto == digits.len() {
        assert(digits.subrange(0, upto) =~= digits);
    } else {
        assert(digits.drop_last().subrange(0, upto) =~= digits.subrange(0, upto));
        lemma_prefix_without_value(digits.drop_last(), upto, radix);
    }
}

pub open spec fn is_decimal_digit(character: char) -> bool {
    '0' <= character <= '9'
}

/// How many decimal digits a text holds.
pub open spec fn digit_count(text: Seq<char>) -> nat
    decreases text.len(),
{
    if text.len() == 0 {
        0
    } else {
        digit_count(text.drop_last()) + if is_decimal_digit(text.last()) {
            1nat
        } else {
            0nat
        }
    }
}

/// How many characters of a text are neither decimal digits nor points.
pub open spec fn stray_count(text: Seq<char>) -> nat
    decreases text.len(),
{
    if text.len() == 0 {
        0
    } else {
        stray_count(text.drop_last()) + if is_decimal_digit(text.last()) || text.last() == '.' {
            0nat
        } else {
            1nat
        }
    }
}

/// How many points a text holds.
pub open spec fn point_count(text: Seq<char>) -> nat
    decreases text.len(),
{
    if text.len() == 0 {
        0
    } else {
        point_count(text.drop_last()) + if text.last() == '.' {
            1nat
        } else {
            0nat
        }
    }
}

/// The text without a sign at its front.
pub open spec fn unsigned_part(text: Seq<char>) -> Seq<char> {
    if text.len() > 0 && (text[0] == '+' || text[0] == '-') {
        text.drop_first()
    } else {
        text
    }
}

/// A decimal literal: an optional sign, then digits, at least one, with at
/// most one point among them and nothing else.
pub open spec fn is_decimal_literal(text: Seq<char>) -> bool {
    &&& digit_count(unsigned_part(text)) >= 1
    &&& point_count(unsigned_part(text)) <= 1
    &&& stray_count(unsigned_part(text)) == 0
}

/// A numeric text without its thousands separators and with a point for
/// its decimal separator.
pub open spec fn cleaned(text: Seq<char>, thousands: char, point: char) -> Seq<char>
    decreases text.len(),
{
    if text.len() == 0 {
        Seq::empty()
    } else if text.last() == thousands {
        cleaned(text.drop_last(), thousands, point)
    } else if text.last() == point {
        cleaned(text.drop_last(), thousands, point).push('.')
    } else {
        cleaned(text.drop_last(), thousands, point).push(text.last())
    }
}

/// The decimal literal that a numeric text spells once it is cleaned, if
/// it spells one.
pub open spec fn decimal_literal(text: Seq<char>, thousands: char, point: char) -> Option<
    Seq<char>,
> {
    if is_decimal_literal(cleaned(text, thousands, point)) {
        Some(cleaned(text, thousands, point))
    } else {
        None
    }
}

/// The whole number that the digits of a text spell when everything else
/// in it is passed over.
pub open spec fn decimal_mantissa(text: Seq<char>) -> int
    decreases text.len(),
{
    if text.len() == 0 {
        0
    } else if is_decimal_digit(text.last()) {
        decimal_mantissa(text.drop_last()) * 10 + (text.last() as int - '0' as int)
    } else {
        decimal_mantissa(text.drop_last())
    }
}

/// How many characters stand behind the last point of a text; none where
/// the text has no point.
pub open spec fn fraction_digits(text: Seq<char>) -> int
    decreases text.len(),
{
    if text.len() == 0 || point_count(text) == 0 || text.last() == '.' {
        0
    } else {
        fraction_digits(text.drop_last()) + 1
    }
}

/// What a decimal literal denotes: its sign, its digits as a whole number,
/// and the number of its digits behind the point.
pub struct Decimal {
    pub negative: bool,
    pub mantissa: u128,
    pub scale: u32,
}

/// The number that a numeric text denotes once it is cleaned. The text
/// denotes one if it is a decimal literal then, and its digits fit 128
/// bits.
pub open spec fn decimal_of(text: Seq<char>, thousands: char, point: char) -> Option<Decimal> {
    match decimal_literal(text, thousands, point) {
        None => None,
        Some(literal) => {
            let body = unsigned_part(literal);
            if decimal_mantissa(body) <= u128::MAX && fraction_digits(body) <= u32::MAX {
                Some(
                    Decimal {
                        negative: literal[0] == '-',
                        mantissa: decimal_mantissa(body) as u128,
                        scale: fraction_digits(body) as u32,
                    },
                )
            } else {
                None
            }
        },
    }
}

/// The digits of a text spell no less when more text follows.
pub proof fn lemma_mantissa_grows(text: Seq<char>, upto: int)
    requires
        0 <= upto <= text.len(),
    ensures
        0 <= decimal_mantissa(text.subrange(0, upto)) <= decimal_mantissa(text),
    decreases text.len() - upto,
{
    if upto == text.len() {
        assert(text.subrange(0, upto) =~= text);
        lemma_mantissa_not_negative(text);
    } else {
        lemma_mantissa_grows(text, upto + 1);
        let longer = text.subrange(0, upto + 1);
        assert(longer.drop_last() =~= text.subrange(0, upto));
        lemma_mantissa_not_negative(text.subrange(0, upto));
    }
}

pub proof fn lemma_mantissa_not_negative(text: Seq<char>)
    ensures
        decimal_mantissa(text) >= 0,
    decreases text.len(),
{
    if text.len() > 0 {
        lemma_mantissa_not_negative(text.drop_last());
    }
}

/// Reads the number that a numeric text denotes.
pub fn parse_decimal(text: &str, thousands: char, point: char) -> (number: Option<Decimal>)
    ensures
        number == decimal_of(text@, thousands, point),
{
    let literal = match clean_decimal(text, thousands, point) {
        Some(literal) => literal,
        None => {
            return None;
        },
    };
    let digits = literal.as_str();
    let count = digits.unicode_len();
    let negative = digits.get_char(0) == '-';
    let start: usize = if digits.get_char(0) == '+' || digits.get_char(0) == '-' {
        1
    } else {
        0
    };
    let ghost body = unsigned_part(digits@);
    assert(is_decimal_literal(digits@));
    let mut mantissa: u128 = 0;
    let mut scale: u32 = 0;
    let mut seen_point = false;
    let mut index: usize = start;
    assert(body.subrange(0, 0) =~= Seq::<char>::empty());
    while index < count
        invariant
            start <= index <= count,
            count == digits@.len(),
            body == unsigned_part(digits@),
            body.len() == count - start,
            point_count(body) <= 1,
            decimal_literal(text@, thousands, point) == Some(digits@),
            forall|i: int| 0 <= i < body.len() ==> body[i] == digits@[i + start],
            mantissa == decimal_mantissa(body.subrange(0, index - start)),
            scale == fraction_digits(body.subrange(0, index - start)),
            seen_point == (point_count(body.subrange(0, index - start)) > 0),
        decreases count - index,
    {
        let character = digits.get_char(index);
        let ghost upto = body.subrange(0, index - start + 1);
        proof {
            assert(upto.last() == character);
            assert(upto.drop_last() =~= body.subrange(0, index - start));
            lemma_mantissa_grows(body, index - start + 1);
            lemma_points_grow(body, index - start + 1);
        }
        if '0' <= character && character <= '9' {
            let digit = (character as u32 - '0' as u32) as u128;
            let next = match mantissa.checked_mul(10) {
                Some(scaled) => scaled.checked_add(digit),
                None => None,
            };
            match next {
                Some(next) => {
                    mantissa = next;
                },
                None => {
                    assert(decimal_mantissa(upto) == mantissa * 10 + digit);
                    return None;
                },
            }
        }
        if character == '.' {
            seen_point = true;
        } else if seen_point {
            if scale == u32::MAX {
                proof {
                    assert(fraction_digits(upto) == scale + 1);
                    lemma_fraction_grows(body, index - start + 1);
                }
                return None;
            }
            scale += 1;
        }
        index += 1;
    }
    assert(body.subrange(0, index - start) =~= body);
    Some(Decimal { negative, mantissa, scale })
}

/// Behind the single point of a literal, each further character is one
/// more digit of the fraction.
pub proof fn lemma_fraction_grows(text: Seq<char>, upto: int)
    requires
        0 <= upto <= text.len(),
        point_count(text) <= 1,
        point_count(text.subrange(0, upto)) == 1,
    ensures
        fraction_digits(text) >= fraction_digits(text.subrange(0, upto)),
    decreases text.len() - upto,
{
    if upto == text.len() {
        assert(text.subrange(0, upto) =~= text);
    } else {
        let longer = text.subrange(0, upto + 1);
        assert(longer.drop_last() =~= text.subrange(0, upto));
        lemma_points_grow(text, upto + 1);
        lemma_fraction_grows(text, upto + 1);
    }
}

/// A beginning of a text holds no more points than the text.
pub proof fn lemma_points_grow(text: Seq<char>, upto: int)
    requires
        0 <= upto <= text.len(),
    ensures
        point_count(text.subrange(0, upto)) <= point_count(text),
    decreases text.len() - upto,
{
    if upto == text.len() {
        assert(text.subrange(0, upto) =~= text);
    } else {
        lemma_points_grow(text, upto + 1);
        let longer = text.subrange(0, upto + 1);
        assert(longer.drop_last() =~= text.subrange(0, upto));
    }
}

/// Decides [`is_decimal_literal`].
pub fn check_decimal_literal(text: &str) -> (valid: bool)
    ensures
        valid == is_decimal_literal(text@),
{
    let count = text.unicode_len();
    let start: usize = if count > 0 && (text.get_char(0) == '+' || text.get_char(0) == '-') {
        1
    } else {
        0
    };
    let ghost body = unsigned_part(text@);
    let mut digits: usize = 0;
    let mut points: usize = 0;
    let mut strays: usize = 0;
    let mut index: usize = start;
    assert(body.subrange(0, 0) =~= Seq::<char>::empty());
    while index < count
        invariant
            start <= index <= count,
            count == text@.len(),
            body == unsigned_part(text@),
            body.len() == count - start,
            forall|i: int| 0 <= i < body.len() ==> body[i] == text@[i + start],
            digits == digit_count(body.subrange(0, index - start)),
            points == point_count(body.subrange(0, index - start)),
            strays == stray_count(body.subrange(0, index - start)),
            digits <= index,
            points <= index,
            strays <= index,
        decreases count - index,
    {
        let character = text.get_char(index);
        proof {
            let upto = body.subrange(0, index - start + 1);
            assert(upto.last() == character);
            assert(upto.drop_last() =~= body.subrange(0, index - start));
        }
        if '0' <= character && character <= '9' {
            digits += 1;
        } else if character == '.' {
            points += 1;
        } else {
            strays += 1;
        }
        index += 1;
    }
    assert(body.subrange(0, index - start) =~= body);
    digits >= 1 && points <= 1 && strays == 0
}

/// Cleans a numeric text: the thousands separators go, and the decimal
/// separator becomes a point. The result is handed out if it is a decimal
/// literal.
pub fn clean_decimal(text: &str, thousands: char, point: char) -> (literal: Option<String>)
    ensures
        match literal {
            Some(digits) => decimal_literal(text@, thousands, point) == Some(digits@),
            None => decimal_literal(text@, thousands, point) is None,
        },
{
    let count = text.unicode_len();
    let mut digits = String::new();
    let mut index: usize = 0;
    assert(text@.subrange(0, 0) =~= Seq::<char>::empty());
    while index < count
        invariant
            0 <= index <= count,
            count == text@.len(),
            digits@ == cleaned(text@.subrange(0, index as int), thousands, point),
        decreases count - index,
    {
        let character = text.get_char(index);
        proof {
            let upto = text@.subrange(0, index + 1);
            assert(upto.last() == character);
            assert(upto.drop_last() =~= text@.subrange(0, index as int));
        }
        if character == thousands {
        } else if character == point {
            proof {
                reveal_strlit(".");
            }
            digits.append(".");
            assert(digits@ =~= cleaned(text@.subrange(0, index as int), thousands, point).push('.'));
        } else {
            let one = text.substring_char(index, index + 1);
            assert(one@ =~= seq![character]);
            digits.append(one);
            assert(digits@ =~= cleaned(text@.subrange(0, index as int), thousands, point).push(
                character,
            ));
        }
        index += 1;
    }
    assert(text@.subrange(0, index as int) =~= text@);
    if check_decimal_literal(digits.as_str()) {
        Some(digits)
    } else {
        None
    }
}

} // verus!
