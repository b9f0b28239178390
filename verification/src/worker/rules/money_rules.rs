use crate::binary64::Binary64;
use crate::compiler::item::{converted, rate_of};
use crate::config::{currency_named, SmartCalcConfig};
use crate::formula::{answers_all, Formula};
use crate::tokinizer::LocationView;
use crate::types::TokenType;
use crate::worker::tools::{
    agrees, field_money, field_text, fulfil, fulfils, get_money, get_text, Plan, Request,
    RuleFields, Unit,
};
use vstd::prelude::*;

verus! {

/// What `convert_money` decides. The captures `money` and `currency` must
/// both be there: `money` an amount of money, `currency` a text that
/// names a currency. The table must have the rates of both currencies.
/// The result is the amount times the rate of the named currency divided
/// by the rate of its own, as money of the named currency.
pub open spec fn convert_money_plan(
    fields: Map<Seq<char>, LocationView>,
    config: SmartCalcConfig,
) -> Plan {
    if !(fields.contains_key("money"@) && fields.contains_key("currency"@)) {
        Err("Money type not valid"@)
    } else {
        match field_text(fields, "currency"@) {
            None => Err("Currency information not valid"@),
            Some(spelling) => match currency_named(config.currency_alias@, spelling@, 0) {
                None => Err("Currency information not valid"@),
                Some(target) => match field_money(fields, "money"@) {
                    None => Err("Price information not valid"@),
                    Some((price, source)) => match (
                        rate_of(config.currency_rates.rates@, target@, 0),
                        rate_of(config.currency_rates.rates@, source@, 0),
                    ) {
                        (Some(target_rate), Some(source_rate)) => Ok(
                            (converted(price, target_rate, source_rate), Unit::Money(target)),
                        ),
                        _ => Err("Currency rate not valid"@),
                    },
                },
            },
        }
    }
}

/// Decides [`convert_money_plan`].
pub fn convert_money_request(config: &SmartCalcConfig, fields: &RuleFields) -> (answer: Result<
    Request,
    String,
>)
    ensures
        agrees(answer, convert_money_plan(fields@, *config)),
{
    if fields.contains_key("money") && fields.contains_key("currency") {
        let spelling = match get_text("currency", fields) {
            Some(spelling) => spelling,
            None => return Err("Currency information not valid".to_owned()),
        };
        let target = match config.currency(spelling.as_str()) {
            Some(target) => target,
            None => return Err("Currency information not valid".to_owned()),
        };
        let (price, source) = match get_money("money", fields) {
            Some(money) => money,
            None => return Err("Price information not valid".to_owned()),
        };
        return match (config.currency_rates.get(&target), config.currency_rates.get(&source)) {
            (Some(target_rate), Some(source_rate)) => Ok(
                Request {
                    formula: Formula::quotient(
                        Formula::product(Formula::value(price), Formula::value(target_rate)),
                        Formula::value(source_rate),
                    ),
                    unit: Unit::Money(target),
                },
            ),
            _ => Err("Currency rate not valid".to_owned()),
        };
    }
    Err("Money type not valid".to_owned())
}

/// `{MONEY:money} {TEXT:currency}`: the amount in another currency.
pub fn convert_money<E: Fn(Formula) -> Binary64>(
    config: &SmartCalcConfig,
    fields: &RuleFields,
    eval: &E,
) -> (result: Result<TokenType, String>)
    requires
        answers_all(eval),
    ensures
        fulfils(result, convert_money_plan(fields@, *config), eval),
{
    fulfil(convert_money_request(config, fields), eval)
}

} // verus!
