use crate::binary64::Binary64;
use crate::clock::{advance, hours_later, whole_of, whole_part};
use crate::formula::{compute, Formula};
use crate::tokinizer::{LocationView, TokenLocation};
use crate::types::{BramaAstType, ClockTime, TokenType};
use vstd::prelude::*;

verus! {

/// The locations that a matched pattern captured, by the names of its
/// placeholders. A name given twice refers to the location given last.
#[derive(Debug)]
pub struct RuleFields<'a> {
    pub entries: Vec<(String, &'a TokenLocation)>,
}

/// The map that a list of captures stands for: later entries replace earlier
/// ones of the same name.
pub open spec fn entries_map(entries: Seq<(String, &TokenLocation)>) -> Map<
    Seq<char>,
    LocationView,
>
    decreases entries.len(),
{
    if entries.len() == 0 {
        Map::empty()
    } else {
        entries_map(entries.drop_last()).insert(entries.last().0@, entries.last().1@)
    }
}

impl<'a> View for RuleFields<'a> {
    type V = Map<Seq<char>, LocationView>;

    open spec fn view(&self) -> Map<Seq<char>, LocationView> {
        entries_map(self.entries@)
    }
}

impl<'a> RuleFields<'a> {
    pub fn new() -> (fields: RuleFields<'a>)
        ensures
            fields@ == Map::<Seq<char>, LocationView>::empty(),
    {
        RuleFields { entries: Vec::new() }
    }

    /// Puts a capture under a name, in place of any earlier one of that name.
    pub fn insert(&mut self, name: String, location: &'a TokenLocation)
        ensures
            final(self)@ == old(self)@.insert(name@, location@),
    {
        self.entries.push((name, location));
        assert(self.entries@.drop_last() =~= old(self).entries@);
    }

    /// The capture under a name.
    pub fn get(&self, name: &str) -> (found: Option<&'a TokenLocation>)
        ensures
            match found {
                Some(location) => self@.contains_key(name@) && self@[name@] == location@,
                None => !self@.contains_key(name@),
            },
    {
        let wanted = name.to_owned();
        let mut index: usize = self.entries.len();
        assert(self.entries@.subrange(0, index as int) =~= self.entries@);
        while index > 0
            invariant
                0 <= index <= self.entries.len(),
                wanted@ == name@,
                self@.contains_key(name@) == entries_map(
                    self.entries@.subrange(0, index as int),
                ).contains_key(name@),
                self@.contains_key(name@) ==> self@[name@] == entries_map(
                    self.entries@.subrange(0, index as int),
                )[name@],
            decreases index,
        {
            let ghost prefix = self.entries@.subrange(0, index as int);
            assert(prefix.drop_last() =~= self.entries@.subrange(0, index - 1));
            assert(prefix.last() == self.entries@[index - 1]);
            index -= 1;
            if self.entries[index].0 == wanted {
                return Some(self.entries[index].1);
            }
        }
        assert(self.entries@.subrange(0, 0) =~= Seq::<(String, &TokenLocation)>::empty());
        None
    }

    pub fn contains_key(&self, name: &str) -> (found: bool)
        ensures
            found == self@.contains_key(name@),
    {
        self.get(name).is_some()
    }
}

/// The number that a token stands for: a number itself, or a variable whose
/// value is a number.
pub open spec fn token_number(token_type: Option<TokenType>) -> Option<Binary64> {
    match token_type {
        Some(TokenType::Number(number)) => Some(number),
        Some(TokenType::Variable(variable)) => match *variable.data {
            BramaAstType::Number(number) => Some(number),
            _ => None,
        },
        _ => None,
    }
}

/// The percentage that a token stands for, itself or through a variable.
pub open spec fn token_percent(token_type: Option<TokenType>) -> Option<Binary64> {
    match token_type {
        Some(TokenType::Percent(percent)) => Some(percent),
        Some(TokenType::Variable(variable)) => match *variable.data {
            BramaAstType::Percent(percent) => Some(percent),
            _ => None,
        },
        _ => None,
    }
}

/// The amount and currency that a token stands for, itself or through a
/// variable.
pub open spec fn token_money(token_type: Option<TokenType>) -> Option<(Binary64, String)> {
    match token_type {
        Some(TokenType::Money(price, currency)) => Some((price, currency)),
        Some(TokenType::Variable(variable)) => match *variable.data {
            BramaAstType::Money(price, currency) => Some((price, currency)),
            _ => None,
        },
        _ => None,
    }
}

/// The number that a token stands for, or else the amount of its money.
pub open spec fn token_number_or_price(token_type: Option<TokenType>) -> Option<Binary64> {
    match token_number(token_type) {
        Some(number) => Some(number),
        None => match token_money(token_type) {
            Some((price, _)) => Some(price),
            None => None,
        },
    }
}

pub open spec fn token_currency(token_type: Option<TokenType>) -> Option<String> {
    match token_money(token_type) {
        Some((_, currency)) => Some(currency),
        None => None,
    }
}

/// The meaning of the capture under a name; none where there is no capture.
pub open spec fn field_token(fields: Map<Seq<char>, LocationView>, name: Seq<char>) -> Option<
    TokenType,
> {
    if fields.contains_key(name) {
        fields[name].token_type
    } else {
        None
    }
}

pub open spec fn field_number(fields: Map<Seq<char>, LocationView>, name: Seq<char>) -> Option<
    Binary64,
> {
    token_number(field_token(fields, name))
}

pub open spec fn field_percent(fields: Map<Seq<char>, LocationView>, name: Seq<char>) -> Option<
    Binary64,
> {
    token_percent(field_token(fields, name))
}

pub open spec fn field_number_or_price(
    fields: Map<Seq<char>, LocationView>,
    name: Seq<char>,
) -> Option<Binary64> {
    token_number_or_price(field_token(fields, name))
}

pub open spec fn field_currency(fields: Map<Seq<char>, LocationView>, name: Seq<char>) -> Option<
    String,
> {
    token_currency(field_token(fields, name))
}

fn number_in(token_type: &Option<TokenType>) -> (number: Option<Binary64>)
    ensures
        number == token_number(*token_type),
{
    match token_type {
        Some(TokenType::Number(number)) => Some(*number),
        Some(TokenType::Variable(variable)) => match &*variable.data {
            BramaAstType::Number(number) => Some(*number),
            _ => None,
        },
        _ => None,
    }
}

fn percent_in(token_type: &Option<TokenType>) -> (percent: Option<Binary64>)
    ensures
        percent == token_percent(*token_type),
{
    match token_type {
        Some(TokenType::Percent(percent)) => Some(*percent),
        Some(TokenType::Variable(variable)) => match &*variable.data {
            BramaAstType::Percent(percent) => Some(*percent),
            _ => None,
        },
        _ => None,
    }
}

fn money_in(token_type: &Option<TokenType>) -> (money: Option<(Binary64, String)>)
    ensures
        money == token_money(*token_type),
{
    match token_type {
        Some(TokenType::Money(price, currency)) => Some((*price, currency.clone())),
        Some(TokenType::Variable(variable)) => match &*variable.data {
            BramaAstType::Money(price, currency) => Some((*price, currency.clone())),
            _ => None,
        },
        _ => None,
    }
}

/// The number captured under `field_name`.
pub fn get_number(field_name: &str, fields: &RuleFields) -> (number: Option<Binary64>)
    ensures
        number == field_number(fields@, field_name@),
{
    match fields.get(field_name) {
        Some(location) => number_in(&location.token_type),
        None => None,
    }
}

/// The percentage captured under `field_name`.
pub fn get_percent(field_name: &str, fields: &RuleFields) -> (percent: Option<Binary64>)
    ensures
        percent == field_percent(fields@, field_name@),
{
    match fields.get(field_name) {
        Some(location) => percent_in(&location.token_type),
        None => None,
    }
}

/// The number captured under `field_name`, or the amount of the money
/// captured there.
pub fn get_number_or_price(field_name: &str, fields: &RuleFields) -> (number: Option<Binary64>)
    ensures
        number == field_number_or_price(fields@, field_name@),
{
    match fields.get(field_name) {
        Some(location) => match number_in(&location.token_type) {
            Some(number) => Some(number),
            None => match money_in(&location.token_type) {
                Some((price, _)) => Some(price),
                None => None,
            },
        },
        None => None,
    }
}

/// The currency of the money captured under `field_name`.
pub fn get_currency(field_name: &str, fields: &RuleFields) -> (currency: Option<String>)
    ensures
        currency == field_currency(fields@, field_name@),
{
    match fields.get(field_name) {
        Some(location) => match money_in(&location.token_type) {
            Some((_, currency)) => Some(currency),
            None => None,
        },
        None => None,
    }
}

/// The text that a token is.
pub open spec fn token_text(token_type: Option<TokenType>) -> Option<String> {
    match token_type {
        Some(TokenType::Text(text)) => Some(text),
        _ => None,
    }
}

/// The value that a token holds by itself, with its unit.
pub open spec fn token_value(token_type: Option<TokenType>) -> Option<(Binary64, Unit)> {
    match token_type {
        Some(TokenType::Number(number)) => Some((number, Unit::Number)),
        Some(TokenType::Percent(percent)) => Some((percent, Unit::Percent)),
        Some(TokenType::Money(price, currency)) => Some((price, Unit::Money(currency))),
        _ => None,
    }
}

pub open spec fn field_text(fields: Map<Seq<char>, LocationView>, name: Seq<char>) -> Option<
    String,
> {
    token_text(field_token(fields, name))
}

pub open spec fn field_money(fields: Map<Seq<char>, LocationView>, name: Seq<char>) -> Option<
    (Binary64, String),
> {
    token_money(field_token(fields, name))
}

pub open spec fn field_value(fields: Map<Seq<char>, LocationView>, name: Seq<char>) -> Option<
    (Binary64, Unit),
> {
    token_value(field_token(fields, name))
}

/// The time of day that a token stands for: its own, or that of the
/// variable that it names.
pub open spec fn token_time(token_type: Option<TokenType>) -> Option<ClockTime> {
    match token_type {
        Some(TokenType::Time(time)) => Some(time),
        Some(TokenType::Variable(variable)) => match *variable.data {
            BramaAstType::Time(time) => Some(time),
            _ => None,
        },
        _ => None,
    }
}

pub open spec fn field_time(fields: Map<Seq<char>, LocationView>, name: Seq<char>) -> Option<
    ClockTime,
> {
    token_time(field_token(fields, name))
}

/// The time of day captured under `field_name`.
pub fn get_time(field_name: &str, fields: &RuleFields) -> (time: Option<ClockTime>)
    ensures
        time == field_time(fields@, field_name@),
{
    match fields.get(field_name) {
        Some(location) => match &location.token_type {
            Some(TokenType::Time(time)) => Some(*time),
            Some(TokenType::Variable(variable)) => match &*variable.data {
                BramaAstType::Time(time) => Some(*time),
                _ => None,
            },
            _ => None,
        },
        None => None,
    }
}

/// The text captured under `field_name`.
pub fn get_text(field_name: &str, fields: &RuleFields) -> (text: Option<String>)
    ensures
        text == field_text(fields@, field_name@),
{
    match fields.get(field_name) {
        Some(location) => match &location.token_type {
            Some(TokenType::Text(text)) => Some(text.clone()),
            _ => None,
        },
        None => None,
    }
}

/// The amount and the currency of the money captured under `field_name`.
pub fn get_money(field_name: &str, fields: &RuleFields) -> (money: Option<(Binary64, String)>)
    ensures
        money == field_money(fields@, field_name@),
{
    match fields.get(field_name) {
        Some(location) => money_in(&location.token_type),
        None => None,
    }
}

/// The value that the token captured under `field_name` holds by itself,
/// with its unit.
pub fn get_value(field_name: &str, fields: &RuleFields) -> (value: Option<(Binary64, Unit)>)
    ensures
        value == field_value(fields@, field_name@),
{
    match fields.get(field_name) {
        Some(location) => match &location.token_type {
            Some(TokenType::Number(number)) => Some((*number, Unit::Number)),
            Some(TokenType::Percent(percent)) => Some((*percent, Unit::Percent)),
            Some(TokenType::Money(price, currency)) => Some(
                (*price, Unit::Money(currency.clone())),
            ),
            _ => None,
        },
        None => None,
    }
}

/// What the value of a formula is to be taken as: a number, a percentage,
/// an amount of money in a currency, or a count of hours that have passed
/// since a time of day.
#[derive(Debug)]
pub enum Unit {
    Number,
    Percent,
    Money(String),
    HoursAfter(ClockTime),
}

/// What a rule's handler asks for once it has accepted its captures: the
/// arithmetic to carry out, and what the result is.
#[derive(Debug)]
pub struct Request {
    pub formula: Formula,
    pub unit: Unit,
}

/// What a handler decides: a request, or the reason why the rule does not
/// apply.
pub type Plan = Result<(Formula, Unit), Seq<char>>;

/// The token that holds `value` in the given unit. Hours after a time of
/// day come to a time of day: only the whole hours count.
pub open spec fn settled(unit: Unit, value: Binary64) -> TokenType {
    match unit {
        Unit::Number => TokenType::Number(value),
        Unit::Percent => TokenType::Percent(value),
        Unit::Money(currency) => TokenType::Money(value, currency),
        Unit::HoursAfter(time) => TokenType::Time(hours_later(time, whole_part(value))),
    }
}

/// A handler's answer agrees with a plan.
pub open spec fn agrees(answer: Result<Request, String>, plan: Plan) -> bool {
    match (answer, plan) {
        (Ok(request), Ok((formula, unit))) => request.formula == formula && request.unit == unit,
        (Err(message), Err(reason)) => message@ == reason,
        _ => false,
    }
}

/// A handler's result agrees with a plan: it holds, in the plan's unit,
/// the value of the plan's formula, which is the formula itself if that is
/// a value already, and some value that the evaluator may give it
/// otherwise.
pub open spec fn fulfils<E: Fn(Formula) -> Binary64>(
    result: Result<TokenType, String>,
    plan: Plan,
    eval: &E,
) -> bool {
    match (result, plan) {
        (Ok(token), Ok((formula, unit))) => match formula {
            Formula::Value(known) => token == settled(unit, known),
            _ => exists|value: Binary64|
                call_ensures(*eval, (formula,), value) && token == settled(unit, value),
        },
        (Err(message), Err(reason)) => message@ == reason,
        _ => false,
    }
}

/// The unit of a result that takes its currency, if any, from a capture.
pub open spec fn unit_of(currency: Option<String>) -> Unit {
    match currency {
        Some(code) => Unit::Money(code),
        None => Unit::Number,
    }
}

impl Unit {
    /// The token that holds `value` in this unit.
    pub fn settle(self, value: Binary64) -> (token: TokenType)
        ensures
            token == settled(self, value),
    {
        match self {
            Unit::Number => TokenType::Number(value),
            Unit::Percent => TokenType::Percent(value),
            Unit::Money(currency) => TokenType::Money(value, currency),
            Unit::HoursAfter(time) => TokenType::Time(advance(time, whole_of(value))),
        }
    }
}

/// Has the evaluator carry out what a handler asked for, and hands on the
/// handler's refusal unchanged.
pub fn fulfil<E: Fn(Formula) -> Binary64>(answer: Result<Request, String>, eval: &E) -> (result:
    Result<TokenType, String>)
    requires
        crate::formula::answers_all(eval),
    ensures
        forall|plan: Plan| agrees(answer, plan) ==> fulfils(result, plan, eval),
{
    match answer {
        Ok(request) => {
            let Request { formula, unit } = request;
            let value = compute(formula, eval);
            Ok(unit.settle(value))
        },
        Err(message) => Err(message),
    }
}

} // verus!
