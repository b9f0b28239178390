use crate::binary64::Binary64;
use crate::formula::{answers_all, hundredfold_ratio, percent_share, Formula};
use crate::tokinizer::LocationView;
use crate::types::TokenType;
use crate::worker::tools::{
    agrees, field_currency, field_number, field_number_or_price, field_percent, fulfil, fulfils,
    get_currency, get_number, get_number_or_price, get_percent, unit_of, Plan, Request,
    RuleFields, Unit,
};
use vstd::prelude::*;

verus! {

/// What `percent_calculator` decides. The captures `p` and `number` must
/// both be there, `number` a number and `p` a percentage. The result is the
/// number `p * number / 100`.
pub open spec fn percent_calculator_plan(fields: Map<Seq<char>, LocationView>) -> Plan {
    if !(fields.contains_key("p"@) && fields.contains_key("number"@)) {
        Err("Percent not valid"@)
    } else {
        match field_number(fields, "number"@) {
            None => Err("Number information not valid"@),
            Some(number) => match field_percent(fields, "p"@) {
                None => Err("Percent information not valid"@),
                Some(percent) => Ok(
                    (
                        percent_share(Formula::Value(percent), Formula::Value(number)),
                        Unit::Number,
                    ),
                ),
            },
        }
    }
}

/// What `find_numbers_percent` decides. The captures `part` and `total`
/// must both be there, each a number or an amount of money. The result is
/// the percentage `part * 100 / total`.
pub open spec fn find_numbers_percent_plan(fields: Map<Seq<char>, LocationView>) -> Plan {
    if !(fields.contains_key("part"@) && fields.contains_key("total"@)) {
        Err("Find percent not valid"@)
    } else {
        match field_number_or_price(fields, "total"@) {
            None => Err("Total number information not valid"@),
            Some(total) => match field_number_or_price(fields, "part"@) {
                None => Err("Part number information not valid"@),
                Some(part) => Ok((hundredfold_ratio(part, total), Unit::Percent)),
            },
        }
    }
}

/// What `find_total_from_percent` decides. The captures `number_part` and
/// `percent_part` must both be there, the first a number or an amount of
/// money, the second a percentage. The result is
/// `number_part * 100 / percent_part`, money in the currency of
/// `number_part` if that is money, and a number otherwise.
pub open spec fn find_total_from_percent_plan(fields: Map<Seq<char>, LocationView>) -> Plan {
    if !(fields.contains_key("number_part"@) && fields.contains_key("percent_part"@)) {
        Err("Find percent not valid"@)
    } else {
        match field_number_or_price(fields, "number_part"@) {
            None => Err("Number part information not valid"@),
            Some(number_part) => match field_percent(fields, "percent_part"@) {
                None => Err("Percent part information not valid"@),
                Some(percent_part) => Ok(
                    (
                        hundredfold_ratio(number_part, percent_part),
                        unit_of(field_currency(fields, "number_part"@)),
                    ),
                ),
            },
        }
    }
}

/// Decides [`percent_calculator_plan`].
pub fn percent_calculator_request(fields: &RuleFields) -> (answer: Result<Request, String>)
    ensures
        agrees(answer, percent_calculator_plan(fields@)),
{
    if fields.contains_key("p") && fields.contains_key("number") {
        let number = match get_number("number", fields) {
            Some(number) => number,
            None => return Err("Number information not valid".to_owned()),
        };
        let percent = match get_percent("p", fields) {
            Some(number) => number,
            None => return Err("Percent information not valid".to_owned()),
        };
        return Ok(
            Request {
                formula: Formula::percent_share(Formula::value(percent), Formula::value(number)),
                unit: Unit::Number,
            },
        );
    }
    Err("Percent not valid".to_owned())
}

/// Decides [`find_numbers_percent_plan`].
pub fn find_numbers_percent_request(fields: &RuleFields) -> (answer: Result<Request, String>)
    ensures
        agrees(answer, find_numbers_percent_plan(fields@)),
{
    if fields.contains_key("part") && fields.contains_key("total") {
        let total = match get_number_or_price("total", fields) {
            Some(number) => number,
            None => return Err("Total number information not valid".to_owned()),
        };
        let part = match get_number_or_price("part", fields) {
            Some(number) => number,
            None => return Err("Part number information not valid".to_owned()),
        };
        return Ok(Request { formula: Formula::hundredfold_ratio(part, total), unit: Unit::Percent });
    }
    Err("Find percent not valid".to_owned())
}

/// Decides [`find_total_from_percent_plan`].
pub fn find_total_from_percent_request(fields: &RuleFields) -> (answer: Result<Request, String>)
    ensures
        agrees(answer, find_total_from_percent_plan(fields@)),
{
    if fields.contains_key("number_part") && fields.contains_key("percent_part") {
        let number_part = match get_number_or_price("number_part", fields) {
            Some(number) => number,
            None => return Err("Number part information not valid".to_owned()),
        };
        let percent_part = match get_percent("percent_part", fields) {
            Some(percent) => percent,
            None => return Err("Percent part information not valid".to_owned()),
        };
        let unit = match get_currency("number_part", fields) {
            Some(currency) => Unit::Money(currency),
            None => Unit::Number,
        };
        return Ok(Request { formula: Formula::hundredfold_ratio(number_part, percent_part), unit });
    }
    Err("Find percent not valid".to_owned())
}

/// A percentage of a number: `{PERCENT:p}` applied to `{NUMBER:number}`.
pub fn percent_calculator<E: Fn(Formula) -> Binary64>(fields: &RuleFields, eval: &E) -> (result:
    Result<TokenType, String>)
    requires
        answers_all(eval),
    ensures
        fulfils(result, percent_calculator_plan(fields@), eval),
{
    fulfil(percent_calculator_request(fields), eval)
}

/// `{NUMBER:part} is what % of {NUMBER:total}`.
pub fn find_numbers_percent<E: Fn(Formula) -> Binary64>(fields: &RuleFields, eval: &E) -> (result:
    Result<TokenType, String>)
    requires
        answers_all(eval),
    ensures
        fulfils(result, find_numbers_percent_plan(fields@), eval),
{
    fulfil(find_numbers_percent_request(fields), eval)
}

/// `{NUMBER:number_part} is {PERCENT:percent_part} of what`.
pub fn find_total_from_percent<E: Fn(Formula) -> Binary64>(fields: &RuleFields, eval: &E) -> (result:
    Result<TokenType, String>)
    requires
        answers_all(eval),
    ensures
        fulfils(result, find_total_from_percent_plan(fields@), eval),
{
    fulfil(find_total_from_percent_request(fields), eval)
}

} // verus!
