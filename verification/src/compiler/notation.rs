use crate::binary64::Binary64;
use crate::clock::{whole_of, whole_part};
use crate::compiler::number::NumberType;
use vstd::prelude::*;

verus! {

/// The character that writes a digit: `0` to `9`, then `A` to `F`.
pub open spec fn digit_char(digit: nat) -> char {
    if digit == 0 {
        '0'
    } else if digit == 1 {
        '1'
    } else if digit == 2 {
        '2'
    } else if digit == 3 {
        '3'
    } else if digit == 4 {
        '4'
    } else if digit == 5 {
        '5'
    } else if digit == 6 {
        '6'
    } else if digit == 7 {
        '7'
    } else if digit == 8 {
        '8'
    } else if digit == 9 {
        '9'
    } else if digit == 10 {
        'A'
    } else if digit == 11 {
        'B'
    } else if digit == 12 {
        'C'
    } else if digit == 13 {
        'D'
    } else if digit == 14 {
        'E'
    } else {
        'F'
    }
}

/// The digits that write a whole number in a base from 2 to 16, the
/// highest first and without leading zeros; zero is written `0`.
pub open spec fn digits_in(value: nat, base: nat) -> Seq<char>
    decreases value,
    via digits_in_decreases
{
    if base < 2 || value < base {
        seq![digit_char(value)]
    } else {
        digits_in(value / base, base).push(digit_char(value % base))
    }
}

#[via_fn]
proof fn digits_in_decreases(value: nat, base: nat) {
    if base >= 2 && value >= base {
        assert(value / base < value) by (nonlinear_arith)
            requires
                base >= 2,
                value >= base,
        ;
    }
}

/// A whole number as a signed integer of 32 bits: the nearest of those
/// where it lies beyond them.
pub open spec fn narrowed(whole: int) -> int {
    if whole < i32::MIN {
        i32::MIN as int
    } else if whole > i32::MAX {
        i32::MAX as int
    } else {
        whole
    }
}

/// The bits of a signed integer of 32 bits read as a number without a
/// sign: a negative number counts from two to the power of 32 downwards.
pub open spec fn unsigned_form(narrow: int) -> nat {
    if narrow < 0 {
        (narrow + 0x1_0000_0000) as nat
    } else {
        narrow as nat
    }
}

/// A whole number in decimal digits, with a minus sign if it is negative.
pub open spec fn signed_decimal(narrow: int) -> Seq<char> {
    if narrow < 0 {
        seq!['-'] + digits_in((-narrow) as nat, 10)
    } else {
        digits_in(narrow as nat, 10)
    }
}

/// How a number is written in the system it was read in, where that is not
/// the decimal system with a fraction: the whole part of the number, as a
/// signed integer of 32 bits, behind `0b`, `0o` or `0x` in the digits of
/// the system, or plainly in decimal digits.
pub open spec fn whole_text(value: Binary64, number_type: NumberType) -> Option<Seq<char>> {
    let narrow = narrowed(whole_part(value));
    match number_type {
        NumberType::Decimal => None,
        NumberType::Binary => Some(seq!['0', 'b'] + digits_in(unsigned_form(narrow), 2)),
        NumberType::Octal => Some(seq!['0', 'o'] + digits_in(unsigned_form(narrow), 8)),
        NumberType::Hexadecimal => Some(seq!['0', 'x'] + digits_in(unsigned_form(narrow), 16)),
        NumberType::Raw => Some(signed_decimal(narrow)),
    }
}

/// Decides [`digit_char`].
pub fn digit_character(digit: u64) -> (character: char)
    ensures
        character == digit_char(digit as nat),
{
    if digit == 0 {
        '0'
    } else if digit == 1 {
        '1'
    } else if digit == 2 {
        '2'
    } else if digit == 3 {
        '3'
    } else if digit == 4 {
        '4'
    } else if digit == 5 {
        '5'
    } else if digit == 6 {
        '6'
    } else if digit == 7 {
        '7'
    } else if digit == 8 {
        '8'
    } else if digit == 9 {
        '9'
    } else if digit == 10 {
        'A'
    } else if digit == 11 {
        'B'
    } else if digit == 12 {
        'C'
    } else if digit == 13 {
        'D'
    } else if digit == 14 {
        'E'
    } else {
        'F'
    }
}

/// Writes the digits of a whole number in a base behind what is written
/// already.
pub fn push_digits(value: u64, base: u64, text: &mut Vec<char>)
    requires
        2 <= base <= 16,
    ensures
        final(text)@ == old(text)@ + digits_in(value as nat, base as nat),
    decreases value,
{
    let ghost before = text@;
    let ghost number = value as nat;
    let ghost radix = base as nat;
    if value >= base {
        assert(value / base < value) by (nonlinear_arith)
            requires
                base >= 2,
                value >= base,
        ;
        push_digits(value / base, base, text);
        text.push(digit_character(value % base));
        proof {
            assert(digits_in(number, radix) == digits_in(number / radix, radix).push(
                digit_char(number % radix),
            ));
            assert(text@ =~= before + digits_in(number, radix));
        }
    } else {
        text.push(digit_character(value));
        proof {
            assert(digits_in(number, radix) == seq![digit_char(number)]);
            assert(text@ =~= before + digits_in(number, radix));
        }
    }
}

/// Writes a number in the system it was read in, as [`whole_text`] says;
/// a number of the decimal system is not written here.
pub fn whole_in_base(value: Binary64, number_type: NumberType) -> (text: Option<Vec<char>>)
    ensures
        match text {
            Some(written) => whole_text(value, number_type) == Some(written@),
            None => whole_text(value, number_type) is None,
        },
{
    let whole = whole_of(value);
    let narrow: i64 = if whole < -2147483648 {
        -2147483648
    } else if whole > 2147483647 {
        2147483647
    } else {
        whole
    };
    assert(narrow == narrowed(whole_part(value)));
    let unsigned: u64 = if narrow < 0 {
        (narrow + 0x1_0000_0000) as u64
    } else {
        narrow as u64
    };
    let mut text: Vec<char> = Vec::new();
    match number_type {
        NumberType::Decimal => {
            return None;
        },
        NumberType::Binary => {
            text.push('0');
            text.push('b');
            push_digits(unsigned, 2, &mut text);
        },
        NumberType::Octal => {
            text.push('0');
            text.push('o');
            push_digits(unsigned, 8, &mut text);
        },
        NumberType::Hexadecimal => {
            text.push('0');
            text.push('x');
            push_digits(unsigned, 16, &mut text);
        },
        NumberType::Raw => {
            if narrow < 0 {
                text.push('-');
                push_digits((0 - narrow) as u64, 10, &mut text);
            } else {
                push_digits(narrow as u64, 10, &mut text);
            }
        },
    }
    assert(Some(text@) =~= whole_text(value, number_type));
    Some(text)
}

} // verus!
