use crate::binary64::Binary64;
use vstd::prelude::*;

verus! {

/// Bit pattern of one hundred.
pub const HUNDRED_BITS: u64 = 0x4059_0000_0000_0000;

/// Bit pattern of minus one.
pub const MINUS_ONE_BITS: u64 = 0xbff0_0000_0000_0000;

/// Bit pattern of positive zero.
pub const ZERO_BITS: u64 = 0;

/// Bit pattern of the distance between one and the next larger binary64.
pub const EPSILON_BITS: u64 = 0x3cb0_0000_0000_0000;

/// Arithmetic that the library asks its caller to carry out.
///
/// The library decides which operations are applied to which operands and in
/// what order; the caller evaluates the formula in binary64 arithmetic and
/// hands the value back.
#[derive(Debug)]
pub enum Formula {
    /// A value that is known already.
    Value(Binary64),
    /// The binary64 nearest to a whole number.
    Whole(u64),
    /// The binary64 nearest to the number that a decimal literal denotes:
    /// `mantissa` divided by ten to the power of `scale`, negative if
    /// `negative` says so. A literal of a negative zero denotes the
    /// negative zero.
    Decimal { negative: bool, mantissa: u128, scale: u32 },
    Sum(Box<Formula>, Box<Formula>),
    Difference(Box<Formula>, Box<Formula>),
    Product(Box<Formula>, Box<Formula>),
    Quotient(Box<Formula>, Box<Formula>),
}

pub open spec fn hundred() -> Formula {
    Formula::Value(Binary64 { bits: HUNDRED_BITS })
}

pub open spec fn sum_of(left: Formula, right: Formula) -> Formula {
    Formula::Sum(Box::new(left), Box::new(right))
}

pub open spec fn difference_of(left: Formula, right: Formula) -> Formula {
    Formula::Difference(Box::new(left), Box::new(right))
}

pub open spec fn product_of(left: Formula, right: Formula) -> Formula {
    Formula::Product(Box::new(left), Box::new(right))
}

pub open spec fn quotient_of(left: Formula, right: Formula) -> Formula {
    Formula::Quotient(Box::new(left), Box::new(right))
}

/// `amount * percent / 100`: the share of an amount that a percentage names.
pub open spec fn percent_share(amount: Formula, percent: Formula) -> Formula {
    quotient_of(product_of(amount, percent), hundred())
}

/// `amount + amount * percent / 100`.
pub open spec fn percent_on(amount: Binary64, percent: Binary64) -> Formula {
    sum_of(
        Formula::Value(amount),
        percent_share(Formula::Value(amount), Formula::Value(percent)),
    )
}

/// `amount * percent / 100`.
pub open spec fn percent_of(amount: Binary64, percent: Binary64) -> Formula {
    percent_share(Formula::Value(amount), Formula::Value(percent))
}

/// `amount - amount * percent / 100`.
pub open spec fn percent_off(amount: Binary64, percent: Binary64) -> Formula {
    difference_of(
        Formula::Value(amount),
        percent_share(Formula::Value(amount), Formula::Value(percent)),
    )
}

/// `part * 100 / total`: the percentage that a part is of a total. One
/// operand is multiplied by a hundred and divided by the other.
pub open spec fn hundredfold_ratio(part: Binary64, total: Binary64) -> Formula {
    quotient_of(product_of(Formula::Value(part), hundred()), Formula::Value(total))
}

/// `-1 * value`.
pub open spec fn negated(value: Binary64) -> Formula {
    product_of(Formula::Value(Binary64 { bits: MINUS_ONE_BITS }), Formula::Value(value))
}

/// The evaluator answers every formula.
pub open spec fn answers_all<E: Fn(Formula) -> Binary64>(eval: &E) -> bool {
    forall|formula: Formula| call_requires(*eval, (formula,))
}

/// The evaluator gives every formula the value that `values` gives it:
/// what it computes is a function of the formula.
pub open spec fn computes<E: Fn(Formula) -> Binary64>(
    eval: &E,
    values: spec_fn(Formula) -> Binary64,
) -> bool {
    forall|formula: Formula, value: Binary64|
        call_ensures(*eval, (formula,), value) ==> value == values(formula)
}

/// The value of a formula, where formulas have the values that `values`
/// gives them. A formula that is a value already has that value, whatever
/// `values` says.
pub open spec fn valued(formula: Formula, values: spec_fn(Formula) -> Binary64) -> Binary64 {
    match formula {
        Formula::Value(known) => known,
        _ => values(formula),
    }
}

/// The value of a formula: the formula itself if it is a value already,
/// and what the evaluator computes otherwise.
pub fn compute<E: Fn(Formula) -> Binary64>(formula: Formula, eval: &E) -> (value: Binary64)
    requires
        answers_all(eval),
    ensures
        match formula {
            Formula::Value(known) => value == known,
            _ => call_ensures(*eval, (formula,), value),
        },
        forall|values: spec_fn(Formula) -> Binary64| #[trigger]
            computes(eval, values) ==> value == valued(formula, values),
{
    match formula {
        Formula::Value(known) => known,
        other => eval(other),
    }
}

impl Formula {
    pub fn value(value: Binary64) -> (f: Formula)
        ensures
            f == Formula::Value(value),
    {
        Formula::Value(value)
    }

    pub fn hundred() -> (f: Formula)
        ensures
            f == hundred(),
    {
        Formula::Value(Binary64 { bits: HUNDRED_BITS })
    }

    pub fn sum(left: Formula, right: Formula) -> (f: Formula)
        ensures
            f == sum_of(left, right),
    {
        Formula::Sum(Box::new(left), Box::new(right))
    }

    pub fn difference(left: Formula, right: Formula) -> (f: Formula)
        ensures
            f == difference_of(left, right),
    {
        Formula::Difference(Box::new(left), Box::new(right))
    }

    pub fn product(left: Formula, right: Formula) -> (f: Formula)
        ensures
            f == product_of(left, right),
    {
        Formula::Product(Box::new(left), Box::new(right))
    }

    pub fn quotient(left: Formula, right: Formula) -> (f: Formula)
        ensures
            f == quotient_of(left, right),
    {
        Formula::Quotient(Box::new(left), Box::new(right))
    }

    pub fn percent_share(amount: Formula, percent: Formula) -> (f: Formula)
        ensures
            f == percent_share(amount, percent),
    {
        Formula::quotient(Formula::product(amount, percent), Formula::hundred())
    }

    pub fn percent_on(amount: Binary64, percent: Binary64) -> (f: Formula)
        ensures
            f == percent_on(amount, percent),
    {
        Formula::sum(
            Formula::value(amount),
            Formula::percent_share(Formula::value(amount), Formula::value(percent)),
        )
    }

    pub fn percent_of(amount: Binary64, percent: Binary64) -> (f: Formula)
        ensures
            f == percent_of(amount, percent),
    {
        Formula::percent_share(Formula::value(amount), Formula::value(percent))
    }

    pub fn percent_off(amount: Binary64, percent: Binary64) -> (f: Formula)
        ensures
            f == percent_off(amount, percent),
    {
        Formula::difference(
            Formula::value(amount),
            Formula::percent_share(Formula::value(amount), Formula::value(percent)),
        )
    }

    pub fn hundredfold_ratio(part: Binary64, total: Binary64) -> (f: Formula)
        ensures
            f == hundredfold_ratio(part, total),
    {
        Formula::quotient(
            Formula::product(Formula::value(part), Formula::hundred()),
            Formula::value(total),
        )
    }

    pub fn negated(value: Binary64) -> (f: Formula)
        ensures
            f == negated(value),
    {
        Formula::product(
            Formula::value(Binary64 { bits: MINUS_ONE_BITS }),
            Formula::value(value),
        )
    }
}

} // verus!
