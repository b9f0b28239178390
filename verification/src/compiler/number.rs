use crate::binary64::Binary64;
use crate::formula::{
    answers_all, difference_of, negated, percent_share, product_of, quotient_of, sum_of, Formula,
    EPSILON_BITS,
};
use crate::tools::{guard_quotient, guarded};
use crate::types::{ClockTime, TokenType};
use vstd::prelude::*;

verus! {

/// How a number was written, and is to be written again.
#[derive(Clone, Copy, Debug, PartialEq, Eq, Structural)]
pub enum NumberType {
    Decimal,
    Binary,
    Octal,
    Hexadecimal,
    Raw,
}

#[derive(Clone, Copy, Debug, PartialEq, Eq, Structural)]
pub enum OperationType {
    Add,
    Div,
    Mul,
    Sub,
}

#[derive(Clone, Copy, Debug, PartialEq, Eq, Structural)]
pub enum UnaryType {
    Plus,
    Minus,
}

/// A computed number.
#[derive(Clone, Copy, Debug)]
pub struct NumberItem(pub Binary64, pub NumberType);

/// A computed percentage. It has no value of its own: only a share of
/// another item.
#[derive(Clone, Copy, Debug)]
pub struct PercentItem(pub Binary64);

/// A computed amount of money in a currency.
#[derive(Debug)]
pub struct MoneyItem(pub Binary64, pub String);

/// A computed time of day. It takes part in no calculation and has no
/// sign.
#[derive(Clone, Copy, Debug)]
pub struct TimeItem(pub ClockTime);

/// The kinds of computed item.
#[derive(Debug)]
pub enum DataItem {
    Number(NumberItem),
    Percent(PercentItem),
    Money(MoneyItem),
    Time(TimeItem),
}

/// The operand that another item contributes to a calculation with the
/// number `own`: a number its value, a percentage its share of `own`,
/// anything else nothing.
pub open spec fn other_operand(own: Binary64, other: DataItem) -> Option<Formula> {
    match other {
        DataItem::Number(number) => Some(Formula::Value(number.0)),
        DataItem::Percent(percent) => Some(
            percent_share(Formula::Value(own), Formula::Value(percent.0)),
        ),
        DataItem::Money(_) => None,
        DataItem::Time(_) => None,
    }
}

/// The arithmetic of an operation on two operands.
pub open spec fn operation_formula(operation: OperationType, left: Formula, right: Formula) -> Formula {
    match operation {
        OperationType::Add => sum_of(left, right),
        OperationType::Div => quotient_of(left, right),
        OperationType::Mul => product_of(left, right),
        OperationType::Sub => difference_of(left, right),
    }
}

/// The arithmetic of a calculation between the number `own` and another
/// item; `on_left` tells on which side of the operator the number stands.
pub open spec fn calculation(
    own: Binary64,
    on_left: bool,
    other: DataItem,
    operation: OperationType,
) -> Option<Formula> {
    match other_operand(own, other) {
        Some(operand) => Some(
            if on_left {
                operation_formula(operation, Formula::Value(own), operand)
            } else {
                operation_formula(operation, operand, Formula::Value(own))
            },
        ),
        None => None,
    }
}

/// What an operation makes of the value of its formula: a quotient that is
/// not a finite number counts as zero, every other value as itself.
pub open spec fn operation_result(operation: OperationType, value: Binary64) -> Binary64 {
    match operation {
        OperationType::Div => guarded(value),
        _ => value,
    }
}

/// The difference is a number whose magnitude is below the distance from
/// one to the next binary64.
pub open spec fn negligible(difference: Binary64) -> bool {
    !difference.is_nan() && difference.magnitude() < EPSILON_BITS
}

/// Decides [`negligible`].
pub fn is_negligible(difference: Binary64) -> (r: bool)
    ensures
        r == negligible(difference),
{
    !difference.nan() && (difference.bits & crate::binary64::MAGNITUDE_MASK) < EPSILON_BITS
}

impl NumberItem {
    pub fn as_token_type(&self) -> (token: TokenType)
        ensures
            token == TokenType::Number(self.0),
    {
        TokenType::Number(self.0)
    }

    /// The formula of the calculation between this number and `other`, or
    /// `None` where a number cannot be calculated with `other`.
    pub fn calculation_formula(&self, on_left: bool, other: &DataItem, operation_type: OperationType) -> (formula:
        Option<Formula>)
        ensures
            formula == calculation(self.0, on_left, *other, operation_type),
    {
        let operand = match other {
            DataItem::Number(number) => Formula::value(number.0),
            DataItem::Percent(percent) => Formula::percent_share(
                Formula::value(self.0),
                Formula::value(percent.0),
            ),
            DataItem::Money(_) => {
                return None;
            },
            DataItem::Time(_) => {
                return None;
            },
        };
        let (left, right) = if on_left {
            (Formula::value(self.0), operand)
        } else {
            (operand, Formula::value(self.0))
        };
        Some(
            match operation_type {
                OperationType::Add => Formula::sum(left, right),
                OperationType::Div => Formula::quotient(left, right),
                OperationType::Mul => Formula::product(left, right),
                OperationType::Sub => Formula::difference(left, right),
            },
        )
    }

    /// The number that a calculation yields from the value of its formula.
    pub fn calculated(&self, operation_type: OperationType, value: Binary64) -> (item: NumberItem)
        ensures
            item.0 == operation_result(operation_type, value),
            item.1 == self.1,
    {
        match operation_type {
            OperationType::Div => NumberItem(guard_quotient(value), self.1),
            _ => NumberItem(value, self.1),
        }
    }

    /// Tells whether `other` is this number, give or take a rounding error.
    pub fn is_same<E: Fn(Formula) -> Binary64>(&self, other: Binary64, eval: &E) -> (same: bool)
        requires
            answers_all(eval),
        ensures
            exists|difference: Binary64|
                call_ensures(
                    *eval,
                    (difference_of(Formula::Value(other), Formula::Value(self.0)),),
                    difference,
                ) && same == negligible(difference),
    {
        let difference = eval(Formula::difference(Formula::value(other), Formula::value(self.0)));
        is_negligible(difference)
    }

    /// Calculates with another item. A number is calculated with a number,
    /// and with a percentage, which then counts as its share of this
    /// number; with anything else there is no result. The result is a
    /// number written as this one is.
    pub fn calculate<E: Fn(Formula) -> Binary64>(
        &self,
        on_left: bool,
        other: &DataItem,
        operation_type: OperationType,
        eval: &E,
    ) -> (result: Option<NumberItem>)
        requires
            answers_all(eval),
        ensures
            match calculation(self.0, on_left, *other, operation_type) {
                Some(formula) => result matches Some(item) && item.1 == self.1 && exists|
                    value: Binary64,
                |
                    call_ensures(*eval, (formula,), value) && item.0 == operation_result(
                        operation_type,
                        value,
                    ),
                None => result is None,
            },
    {
        match self.calculation_formula(on_left, other, operation_type) {
            Some(formula) => {
                let value = eval(formula);
                Some(self.calculated(operation_type, value))
            },
            None => None,
        }
    }

    pub fn get_number(&self, other: &DataItem) -> (number: Binary64)
        ensures
            number == self.0,
    {
        self.0
    }

    pub fn get_underlying_number(&self) -> (number: Binary64)
        ensures
            number == self.0,
    {
        self.0
    }

    pub fn kind_name(&self) -> (name: &'static str)
        ensures
            name@ == "NUMBER"@,
    {
        "NUMBER"
    }

    /// The number with its sign kept or turned.
    pub fn unary<E: Fn(Formula) -> Binary64>(&self, unary: UnaryType, eval: &E) -> (item: NumberItem)
        requires
            answers_all(eval),
        ensures
            item.1 == self.1,
            match unary {
                UnaryType::Minus => call_ensures(*eval, (negated(self.0),), item.0),
                UnaryType::Plus => item.0 == self.0,
            },
    {
        match unary {
            UnaryType::Minus => NumberItem(eval(Formula::negated(self.0)), self.1),
            UnaryType::Plus => NumberItem(self.0, self.1),
        }
    }
}

} // verus!
