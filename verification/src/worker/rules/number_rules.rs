use crate::binary64::Binary64;
use crate::formula::{answers_all, percent_of, percent_off, percent_on, Formula};
use crate::tokinizer::LocationView;
use crate::types::TokenType;
use crate::worker::tools::{
    agrees, field_currency, field_number_or_price, field_percent, fulfil, fulfils, get_currency,
    get_number_or_price, get_percent, unit_of, Plan, Request, RuleFields, Unit,
};
use vstd::prelude::*;

verus! {

/// The three rules that apply a percentage to an amount.
#[derive(Clone, Copy, Debug, PartialEq, Eq, Structural)]
pub enum AmountRule {
    On,
    Of,
    Off,
}

/// The arithmetic of each rule: the amount raised by the percentage, the
/// percentage of the amount, the amount lowered by the percentage.
pub open spec fn amount_formula(rule: AmountRule, number: Binary64, percent: Binary64) -> Formula {
    match rule {
        AmountRule::On => percent_on(number, percent),
        AmountRule::Of => percent_of(number, percent),
        AmountRule::Off => percent_off(number, percent),
    }
}

/// What each of the three rules decides. The captures `number` and `p` must
/// both be there; `number` must be a number or an amount of money, `p` a
/// percentage. The result is money in the currency of `number` if that is
/// money, and a number otherwise.
pub open spec fn amount_plan(fields: Map<Seq<char>, LocationView>, rule: AmountRule) -> Plan {
    if !(fields.contains_key("number"@) && fields.contains_key("p"@)) {
        Err("Number type not valid"@)
    } else {
        match field_number_or_price(fields, "number"@) {
            None => Err("Number information not valid"@),
            Some(number) => match field_percent(fields, "p"@) {
                None => Err("Percent information not valid"@),
                Some(percent) => Ok(
                    (
                        amount_formula(rule, number, percent),
                        unit_of(field_currency(fields, "number"@)),
                    ),
                ),
            },
        }
    }
}

pub open spec fn number_on_plan(fields: Map<Seq<char>, LocationView>) -> Plan {
    amount_plan(fields, AmountRule::On)
}

pub open spec fn number_of_plan(fields: Map<Seq<char>, LocationView>) -> Plan {
    amount_plan(fields, AmountRule::Of)
}

pub open spec fn number_off_plan(fields: Map<Seq<char>, LocationView>) -> Plan {
    amount_plan(fields, AmountRule::Off)
}

/// Decides [`amount_plan`].
pub fn amount_request(fields: &RuleFields, rule: AmountRule) -> (answer: Result<Request, String>)
    ensures
        agrees(answer, amount_plan(fields@, rule)),
{
    if fields.contains_key("number") && fields.contains_key("p") {
        let number = match get_number_or_price("number", fields) {
            Some(number) => number,
            None => return Err("Number information not valid".to_owned()),
        };
        let percent = match get_percent("p", fields) {
            Some(percent) => percent,
            None => return Err("Percent information not valid".to_owned()),
        };
        let formula = match rule {
            AmountRule::On => Formula::percent_on(number, percent),
            AmountRule::Of => Formula::percent_of(number, percent),
            AmountRule::Off => Formula::percent_off(number, percent),
        };
        let unit = match get_currency("number", fields) {
            Some(currency) => Unit::Money(currency),
            None => Unit::Number,
        };
        return Ok(Request { formula, unit });
    }
    Err("Number type not valid".to_owned())
}

/// `{PERCENT:p} on {NUMBER:number}`: the amount plus the percentage of it.
pub fn number_on<E: Fn(Formula) -> Binary64>(fields: &RuleFields, eval: &E) -> (result: Result<
    TokenType,
    String,
>)
    requires
        answers_all(eval),
    ensures
        fulfils(result, number_on_plan(fields@), eval),
{
    fulfil(amount_request(fields, AmountRule::On), eval)
}

/// `{PERCENT:p} of {NUMBER:number}`: the percentage of the amount.
pub fn number_of<E: Fn(Formula) -> Binary64>(fields: &RuleFields, eval: &E) -> (result: Result<
    TokenType,
    String,
>)
    requires
        answers_all(eval),
    ensures
        fulfils(result, number_of_plan(fields@), eval),
{
    fulfil(amount_request(fields, AmountRule::Of), eval)
}

/// `{PERCENT:p} off {NUMBER:number}`: the amount less the percentage of it.
pub fn number_off<E: Fn(Formula) -> Binary64>(fields: &RuleFields, eval: &E) -> (result: Result<
    TokenType,
    String,
>)
    requires
        answers_all(eval),
    ensures
        fulfils(result, number_off_plan(fields@), eval),
{
    fulfil(amount_request(fields, AmountRule::Off), eval)
}

} // verus!
