use crate::binary64::Binary64;
use crate::formula::{answers_all, Formula};
use crate::tokinizer::LocationView;
use crate::types::TokenType;
use crate::worker::tools::{
    agrees, field_number, field_time, fulfil, fulfils, get_number, get_time, Plan, Request,
    RuleFields, Unit,
};
use vstd::prelude::*;

verus! {

/// What `hour_add` decides. The captures `time` and `hour` must both be
/// there: `time` a time of day, `hour` a number. The result is the time of
/// day that many whole hours later.
pub open spec fn hour_add_plan(fields: Map<Seq<char>, LocationView>) -> Plan {
    if !(fields.contains_key("time"@) && fields.contains_key("hour"@)) {
        Err("Time format not valid"@)
    } else {
        match field_time(fields, "time"@) {
            None => Err("Time information not valid"@),
            Some(time) => match field_number(fields, "hour"@) {
                None => Err("Hour information not valid"@),
                Some(hours) => Ok((Formula::Value(hours), Unit::HoursAfter(time))),
            },
        }
    }
}

/// Decides [`hour_add_plan`].
pub fn hour_add_request(fields: &RuleFields) -> (answer: Result<Request, String>)
    ensures
        agrees(answer, hour_add_plan(fields@)),
{
    if fields.contains_key("time") && fields.contains_key("hour") {
        let time = match get_time("time", fields) {
            Some(time) => time,
            None => return Err("Time information not valid".to_owned()),
        };
        return match get_number("hour", fields) {
            Some(hours) => Ok(
                Request { formula: Formula::value(hours), unit: Unit::HoursAfter(time) },
            ),
            None => Err("Hour information not valid".to_owned()),
        };
    }
    Err("Time format not valid".to_owned())
}

/// `{TIME:time} add {NUMBER:hour} {GROUP:hour_group}`: the time of day so
/// many hours later.
pub fn hour_add<E: Fn(Formula) -> Binary64>(fields: &RuleFields, eval: &E) -> (result: Result<
    TokenType,
    String,
>)
    requires
        answers_all(eval),
    ensures
        fulfils(result, hour_add_plan(fields@), eval),
{
    fulfil(hour_add_request(fields), eval)
}

} // verus!
