use crate::binary64::Binary64;
use crate::formula::{answers_all, Formula};
use crate::tokinizer::LocationView;
use crate::types::TokenType;
use crate::worker::tools::{
    agrees, field_value, fulfil, fulfils, get_value, Plan, Request, RuleFields,
};
use vstd::prelude::*;

verus! {

/// What `division_cleanup` decides. The captures `data` and `text` must
/// both be there, and `data` must hold a number, a percentage or an amount
/// of money. The result is that value as it stands: what follows it, a
/// slash and a word, is no division and is dropped.
pub open spec fn division_cleanup_plan(fields: Map<Seq<char>, LocationView>) -> Plan {
    if !(fields.contains_key("data"@) && fields.contains_key("text"@)) {
        Err("Data type not valid"@)
    } else {
        match field_value(fields, "data"@) {
            Some((value, unit)) => Ok((Formula::Value(value), unit)),
            None => Err("Data information not valid"@),
        }
    }
}

/// Decides [`division_cleanup_plan`].
pub fn division_cleanup_request(fields: &RuleFields) -> (answer: Result<Request, String>)
    ensures
        agrees(answer, division_cleanup_plan(fields@)),
{
    if fields.contains_key("data") && fields.contains_key("text") {
        return match get_value("data", fields) {
            Some((value, unit)) => Ok(Request { formula: Formula::value(value), unit }),
            None => Err("Data information not valid".to_owned()),
        };
    }
    Err("Data type not valid".to_owned())
}

/// `{NUMBER:data}/{TEXT:text}`: the number without the slash and the word.
pub fn division_cleanup<E: Fn(Formula) -> Binary64>(fields: &RuleFields, eval: &E) -> (result:
    Result<TokenType, String>)
    requires
        answers_all(eval),
    ensures
        fulfils(result, division_cleanup_plan(fields@), eval),
{
    fulfil(division_cleanup_request(fields), eval)
}

} // verus!
