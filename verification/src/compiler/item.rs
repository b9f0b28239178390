use crate::binary64::Binary64;
use crate::compiler::number::{
    calculation, operation_formula, operation_result, DataItem, MoneyItem, NumberItem, NumberType,
    OperationType, PercentItem, TimeItem, UnaryType,
};
use crate::formula::{answers_all, computes, negated, product_of, quotient_of, Formula};
use crate::table::{
    keys_distinct, lemma_position_of, lemma_put_keeps_distinct, position_of, put, put_in,
};
use crate::tools::guard_quotient;
use crate::types::{BramaAstType, TokenType};
use vstd::prelude::*;

verus! {

/// What one unit of the base currency is worth in each currency, by the
/// currency's code.
#[derive(Debug)]
pub struct RateTable {
    pub rates: Vec<(String, Binary64)>,
}

/// The rate of a currency: that of the first entry, from `from` on, that
/// bears its code.
pub open spec fn rate_of(rates: Seq<(String, Binary64)>, code: Seq<char>, from: int) -> Option<
    Binary64,
>
    decreases rates.len() - from,
{
    if from < 0 || from >= rates.len() {
        None
    } else if rates[from].0@ == code {
        Some(rates[from].1)
    } else {
        rate_of(rates, code, from + 1)
    }
}

/// The rate that is found for a code is that of the first entry with the
/// code: in a table without a code twice, that of the only one.
pub proof fn lemma_rate_is_first_entry(rates: Seq<(String, Binary64)>, code: Seq<char>, from: int)
    ensures
        rate_of(rates, code, from) == match position_of(rates, code, from) {
            Some(place) => Some(rates[place].1),
            None => None,
        },
    decreases rates.len() - from,
{
    if 0 <= from < rates.len() && rates[from].0@ != code {
        lemma_rate_is_first_entry(rates, code, from + 1);
    }
}

impl RateTable {
    /// No code stands twice in the table.
    pub open spec fn well_formed(&self) -> bool {
        keys_distinct(self.rates@)
    }

    /// The table without a rate.
    pub fn new() -> (table: RateTable)
        ensures
            table.rates@.len() == 0,
            table.well_formed(),
    {
        RateTable { rates: Vec::new() }
    }

    /// Sets the rate of a currency; the rate it had, if any, is gone.
    pub fn set(&mut self, code: String, rate: Binary64)
        ensures
            final(self).rates@ == put_in(old(self).rates@, code, rate),
            old(self).well_formed() ==> final(self).well_formed(),
            old(self).well_formed() ==> rate_of(final(self).rates@, code@, 0) == Some(rate),
    {
        proof {
            if self.well_formed() {
                lemma_put_keeps_distinct(self.rates@, code, rate);
                lemma_position_of(self.rates@, code@, 0);
                lemma_position_of(put_in(self.rates@, code, rate), code@, 0);
                lemma_rate_is_first_entry(put_in(self.rates@, code, rate), code@, 0);
            }
        }
        put(&mut self.rates, code, rate);
    }
}

/// An amount in one currency as an amount in another:
/// `value * target_rate / source_rate`.
pub open spec fn converted(value: Binary64, target_rate: Binary64, source_rate: Binary64) -> Formula {
    quotient_of(
        product_of(Formula::Value(value), Formula::Value(target_rate)),
        Formula::Value(source_rate),
    )
}

/// The operand that another item contributes to a calculation with an
/// amount of money: money of the same currency its amount, money of
/// another currency its amount converted through the rates of both, and
/// anything else nothing.
pub open spec fn money_operand(
    own: MoneyItem,
    other: DataItem,
    rates: Seq<(String, Binary64)>,
) -> Option<Formula> {
    match other {
        DataItem::Money(money) => if money.1@ == own.1@ {
            Some(Formula::Value(money.0))
        } else {
            match (rate_of(rates, own.1@, 0), rate_of(rates, money.1@, 0)) {
                (Some(target), Some(source)) => Some(converted(money.0, target, source)),
                _ => None,
            }
        },
        _ => None,
    }
}

/// The arithmetic of a calculation between an amount of money and another
/// item.
pub open spec fn money_calculation(
    own: MoneyItem,
    on_left: bool,
    other: DataItem,
    operation: OperationType,
    rates: Seq<(String, Binary64)>,
) -> Option<Formula> {
    match money_operand(own, other, rates) {
        Some(operand) => Some(
            if on_left {
                operation_formula(operation, Formula::Value(own.0), operand)
            } else {
                operation_formula(operation, operand, Formula::Value(own.0))
            },
        ),
        None => None,
    }
}

/// What an item makes of a calculation with another, where formulas have
/// the values that `values` gives them. A number calculates with numbers
/// and percentages, money with money; a percentage by itself and a time of
/// day calculate with nothing.
pub open spec fn item_calculated(
    own: DataItem,
    on_left: bool,
    other: DataItem,
    operation: OperationType,
    rates: Seq<(String, Binary64)>,
    values: spec_fn(Formula) -> Binary64,
) -> Option<DataItem> {
    match own {
        DataItem::Number(number) => match calculation(number.0, on_left, other, operation) {
            Some(formula) => Some(
                DataItem::Number(
                    NumberItem(operation_result(operation, values(formula)), number.1),
                ),
            ),
            None => None,
        },
        DataItem::Money(money) => match money_calculation(money, on_left, other, operation, rates) {
            Some(formula) => Some(
                DataItem::Money(
                    MoneyItem(operation_result(operation, values(formula)), money.1),
                ),
            ),
            None => None,
        },
        DataItem::Percent(_) => None,
        DataItem::Time(_) => None,
    }
}

/// An item with its sign kept or turned.
pub open spec fn item_signed(
    own: DataItem,
    unary: UnaryType,
    values: spec_fn(Formula) -> Binary64,
) -> DataItem {
    match unary {
        UnaryType::Plus => own,
        UnaryType::Minus => match own {
            DataItem::Number(number) => DataItem::Number(
                NumberItem(values(negated(number.0)), number.1),
            ),
            DataItem::Percent(percent) => DataItem::Percent(PercentItem(values(negated(percent.0)))),
            DataItem::Money(money) => DataItem::Money(MoneyItem(values(negated(money.0)), money.1)),
            DataItem::Time(time) => DataItem::Time(time),
        },
    }
}

/// The item that a value of a syntax tree stands for.
pub open spec fn leaf_item(node: BramaAstType) -> Option<DataItem> {
    match node {
        BramaAstType::Number(number) => Some(
            DataItem::Number(NumberItem(number, NumberType::Decimal)),
        ),
        BramaAstType::Percent(percent) => Some(DataItem::Percent(PercentItem(percent))),
        BramaAstType::Money(price, currency) => Some(DataItem::Money(MoneyItem(price, currency))),
        BramaAstType::Time(time) => Some(DataItem::Time(TimeItem(time))),
        _ => None,
    }
}

/// The value of a syntax tree that an item stands for.
pub open spec fn item_leaf(item: DataItem) -> BramaAstType {
    match item {
        DataItem::Number(number) => BramaAstType::Number(number.0),
        DataItem::Percent(percent) => BramaAstType::Percent(percent.0),
        DataItem::Money(money) => BramaAstType::Money(money.0, money.1),
        DataItem::Time(time) => BramaAstType::Time(time.0),
    }
}

impl RateTable {
    /// The rate of a currency, if the table has it.
    pub fn get(&self, code: &String) -> (rate: Option<Binary64>)
        ensures
            rate == rate_of(self.rates@, code@, 0),
    {
        let mut index: usize = 0;
        while index < self.rates.len()
            invariant
                0 <= index <= self.rates.len(),
                rate_of(self.rates@, code@, 0) == rate_of(self.rates@, code@, index as int),
            decreases self.rates.len() - index,
        {
            if self.rates[index].0 == *code {
                return Some(self.rates[index].1);
            }
            index += 1;
        }
        None
    }
}

impl PercentItem {
    pub fn as_token_type(&self) -> (token: TokenType)
        ensures
            token == TokenType::Percent(self.0),
    {
        TokenType::Percent(self.0)
    }
}

impl MoneyItem {
    pub fn as_token_type(&self) -> (token: TokenType)
        ensures
            token == TokenType::Money(self.0, self.1),
    {
        TokenType::Money(self.0, self.1.clone())
    }

    /// The formula of the calculation between this amount and `other`, or
    /// `None` where money cannot be calculated with `other`.
    pub fn calculation_formula(
        &self,
        on_left: bool,
        other: &DataItem,
        operation_type: OperationType,
        rates: &RateTable,
    ) -> (formula: Option<Formula>)
        ensures
            formula == money_calculation(*self, on_left, *other, operation_type, rates.rates@),
    {
        let operand = match other {
            DataItem::Money(money) => {
                if money.1 == self.1 {
                    Formula::value(money.0)
                } else {
                    match (rates.get(&self.1), rates.get(&money.1)) {
                        (Some(target), Some(source)) => Formula::quotient(
                            Formula::product(Formula::value(money.0), Formula::value(target)),
                            Formula::value(source),
                        ),
                        _ => {
                            return None;
                        },
                    }
                }
            },
            _ => {
                return None;
            },
        };
        let (left, right) = if on_left {
            (Formula::value(self.0), operand)
        } else {
            (operand, Formula::value(self.0))
        };
        Some(
            match operation_type {
                OperationType::Add => Formula::sum(left, right),
                OperationType::Div => Formula::quotient(left, right),
                OperationType::Mul => Formula::product(left, right),
                OperationType::Sub => Formula::difference(left, right),
            },
        )
    }

    /// Calculates with another item. Money is calculated with money: of
    /// the same currency as it is, of another currency converted into this
    /// one where the table has the rates of both. The result is money of
    /// this currency.
    pub fn calculate<E: Fn(Formula) -> Binary64>(
        &self,
        on_left: bool,
        other: &DataItem,
        operation_type: OperationType,
        rates: &RateTable,
        eval: &E,
    ) -> (result: Option<MoneyItem>)
        requires
            answers_all(eval),
        ensures
            match money_calculation(*self, on_left, *other, operation_type, rates.rates@) {
                Some(formula) => result matches Some(item) && item.1 == self.1 && exists|
                    value: Binary64,
                |
                    call_ensures(*eval, (formula,), value) && item.0 == operation_result(
                        operation_type,
                        value,
                    ),
                None => result is None,
            },
    {
        match self.calculation_formula(on_left, other, operation_type, rates) {
            Some(formula) => {
                let ghost asked = formula;
                let value = eval(formula);
                let amount = match operation_type {
                    OperationType::Div => guard_quotient(value),
                    _ => value,
                };
                assert(call_ensures(*eval, (asked,), value) && amount == operation_result(
                    operation_type,
                    value,
                ));
                Some(MoneyItem(amount, self.1.clone()))
            },
            None => None,
        }
    }
}

impl DataItem {
    /// The item that a value of a syntax tree stands for.
    pub fn from_leaf(node: &BramaAstType) -> (item: Option<DataItem>)
        ensures
            item == leaf_item(*node),
    {
        match node {
            BramaAstType::Number(number) => Some(
                DataItem::Number(NumberItem(*number, NumberType::Decimal)),
            ),
            BramaAstType::Percent(percent) => Some(DataItem::Percent(PercentItem(*percent))),
            BramaAstType::Money(price, currency) => Some(
                DataItem::Money(MoneyItem(*price, currency.clone())),
            ),
            BramaAstType::Time(time) => Some(DataItem::Time(TimeItem(*time))),
            _ => None,
        }
    }

    /// The value of a syntax tree that the item stands for.
    pub fn to_leaf(&self) -> (node: BramaAstType)
        ensures
            node == item_leaf(*self),
    {
        match self {
            DataItem::Number(number) => BramaAstType::Number(number.0),
            DataItem::Percent(percent) => BramaAstType::Percent(percent.0),
            DataItem::Money(money) => BramaAstType::Money(money.0, money.1.clone()),
            DataItem::Time(time) => BramaAstType::Time(time.0),
        }
    }

    pub fn as_token_type(&self) -> (token: TokenType)
        ensures
            token == match *self {
                DataItem::Number(number) => TokenType::Number(number.0),
                DataItem::Percent(percent) => TokenType::Percent(percent.0),
                DataItem::Money(money) => TokenType::Money(money.0, money.1),
                DataItem::Time(time) => TokenType::Time(time.0),
            },
    {
        match self {
            DataItem::Number(number) => number.as_token_type(),
            DataItem::Percent(percent) => percent.as_token_type(),
            DataItem::Money(money) => money.as_token_type(),
            DataItem::Time(time) => TokenType::Time(time.0),
        }
    }

    /// Calculates with another item, as the kind of this item does.
    pub fn calculate<E: Fn(Formula) -> Binary64>(
        &self,
        on_left: bool,
        other: &DataItem,
        operation_type: OperationType,
        rates: &RateTable,
        eval: &E,
    ) -> (result: Option<DataItem>)
        requires
            answers_all(eval),
        ensures
            forall|values: spec_fn(Formula) -> Binary64| #[trigger]
                computes(eval, values) ==> result == item_calculated(
                    *self,
                    on_left,
                    *other,
                    operation_type,
                    rates.rates@,
                    values,
                ),
            result is Some <==> match *self {
                DataItem::Number(number) => calculation(number.0, on_left, *other, operation_type)
                     is Some,
                DataItem::Money(money) => money_calculation(
                    money,
                    on_left,
                    *other,
                    operation_type,
                    rates.rates@,
                ) is Some,
                DataItem::Percent(_) => false,
                DataItem::Time(_) => false,
            },
    {
        match self {
            DataItem::Number(number) => match number.calculate(
                on_left,
                other,
                operation_type,
                eval,
            ) {
                Some(item) => Some(DataItem::Number(item)),
                None => None,
            },
            DataItem::Money(money) => match money.calculate(
                on_left,
                other,
                operation_type,
                rates,
                eval,
            ) {
                Some(item) => Some(DataItem::Money(item)),
                None => None,
            },
            DataItem::Percent(_) => None,
            DataItem::Time(_) => None,
        }
    }

    /// The item with its sign kept or turned.
    pub fn unary<E: Fn(Formula) -> Binary64>(&self, unary: UnaryType, eval: &E) -> (item: DataItem)
        requires
            answers_all(eval),
        ensures
            forall|values: spec_fn(Formula) -> Binary64| #[trigger]
                computes(eval, values) ==> item == item_signed(*self, unary, values),
            unary == UnaryType::Plus ==> item == *self,
    {
        match self {
            DataItem::Number(number) => DataItem::Number(number.unary(unary, eval)),
            DataItem::Percent(percent) => match unary {
                UnaryType::Minus => DataItem::Percent(
                    PercentItem(eval(Formula::negated(percent.0))),
                ),
                UnaryType::Plus => DataItem::Percent(PercentItem(percent.0)),
            },
            DataItem::Money(money) => match unary {
                UnaryType::Minus => DataItem::Money(
                    MoneyItem(eval(Formula::negated(money.0)), money.1.clone()),
                ),
                UnaryType::Plus => DataItem::Money(MoneyItem(money.0, money.1.clone())),
            },
            DataItem::Time(time) => DataItem::Time(TimeItem(time.0)),
        }
    }
}

} // verus!
