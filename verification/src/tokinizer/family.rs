use crate::formula::{product_of, Formula};
use crate::literal::{bounded, decimal_of, parse_decimal, parse_radix, radix_value, Decimal};
use crate::config::{currency_named, word_group_named, SmartCalcConfig};
use crate::pattern::{RegexCapture, RegexGroup};
use crate::types::{ClockTime, FieldType, TokenType};
use crate::worker::tools::Unit;
use std::rc::Rc;
use vstd::prelude::*;
use vstd::string::StrSliceExecFns;

verus! {

/// The families of tokens, in the order in which they claim the text.
#[derive(Clone, Copy, Debug, PartialEq, Eq, Structural)]
pub enum TokenFamily {
    Percent,
    Time,
    Money,
    Number,
    Text,
    Field,
    Atom,
    Whitespace,
    Operator,
    Comment,
}

/// What a match of a family's pattern is recognised as.
#[derive(Debug)]
pub enum TokenPlan {
    /// A span without a meaning: blanks, a comment.
    Meaningless,
    /// A token.
    Token(TokenType),
    /// A token that holds the value of a formula in a unit.
    Compute(Formula, Unit),
}

/// The text that the first group of a name captured, from `from` on.
pub open spec fn group_named(groups: Seq<RegexGroup>, name: Seq<char>, from: int) -> Option<String>
    decreases groups.len() - from,
{
    if from < 0 || from >= groups.len() {
        None
    } else {
        match (groups[from].name, groups[from].text) {
            (Some(label), Some(text)) => if label@ == name {
                Some(text)
            } else {
                group_named(groups, name, from + 1)
            },
            _ => group_named(groups, name, from + 1),
        }
    }
}

/// The only character of a text.
pub open spec fn only_character(text: Seq<char>) -> Option<char> {
    if text.len() == 1 {
        Some(text[0])
    } else {
        None
    }
}

/// The factor that a notation letter multiplies by: a thousand for `k`, a
/// million for `M`, and so on up to a million million million million for
/// `Y`. No letter means no factor; any other text is no notation.
pub open spec fn notation_factor(notation: Seq<char>) -> Option<Option<Formula>> {
    if notation.len() == 0 {
        Some(None)
    } else if notation.len() != 1 {
        None
    } else if notation[0] == 'k' || notation[0] == 'K' {
        Some(Some(Formula::Whole(1_000)))
    } else if notation[0] == 'M' {
        Some(Some(Formula::Whole(1_000_000)))
    } else if notation[0] == 'G' {
        Some(Some(Formula::Whole(1_000_000_000)))
    } else if notation[0] == 'T' {
        Some(Some(Formula::Whole(1_000_000_000_000)))
    } else if notation[0] == 'P' {
        Some(Some(Formula::Whole(1_000_000_000_000_000)))
    } else if notation[0] == 'Z' {
        Some(
            Some(
                product_of(Formula::Whole(1_000_000_000), Formula::Whole(1_000_000_000_000)),
            ),
        )
    } else if notation[0] == 'Y' {
        Some(
            Some(
                product_of(
                    Formula::Whole(1_000_000_000_000),
                    Formula::Whole(1_000_000_000_000),
                ),
            ),
        )
    } else {
        None
    }
}

pub open spec fn decimal_formula(number: Decimal) -> Formula {
    Formula::Decimal { negative: number.negative, mantissa: number.mantissa, scale: number.scale }
}

/// The formula of a number written as a decimal literal with an optional
/// notation letter.
pub open spec fn scaled_decimal(
    digits: String,
    notation: Option<String>,
    config: SmartCalcConfig,
) -> Option<Formula> {
    match decimal_of(digits@, config.thousand_separator, config.decimal_seperator) {
        None => None,
        Some(number) => match notation {
            None => Some(decimal_formula(number)),
            Some(letter) => match notation_factor(letter@) {
                None => None,
                Some(None) => Some(decimal_formula(number)),
                Some(Some(factor)) => Some(product_of(decimal_formula(number), factor)),
            },
        },
    }
}

/// The formula of a whole number written in a number system.
pub open spec fn radix_formula(digits: String, radix: int) -> Option<Formula> {
    match bounded(radix_value(digits@, radix)) {
        Some(value) => Some(Formula::Whole(value)),
        None => None,
    }
}

/// What a match of a number pattern denotes: its group `HEX`, `OCTAL` or
/// `BINARY` a whole number in that system, its group `DECIMAL` a decimal
/// literal that its group `NOTATION` may scale.
pub open spec fn number_formula(groups: Seq<RegexGroup>, config: SmartCalcConfig) -> Option<Formula> {
    match group_named(groups, "HEX"@, 0) {
        Some(digits) => radix_formula(digits, 16),
        None => match group_named(groups, "OCTAL"@, 0) {
            Some(digits) => radix_formula(digits, 8),
            None => match group_named(groups, "BINARY"@, 0) {
                Some(digits) => radix_formula(digits, 2),
                None => match group_named(groups, "DECIMAL"@, 0) {
                    Some(digits) => scaled_decimal(
                        digits,
                        group_named(groups, "NOTATION"@, 0),
                        config,
                    ),
                    None => None,
                },
            },
        },
    }
}

/// What a match of a percent pattern denotes: the decimal literal of its
/// group `NUMBER`.
pub open spec fn percent_formula(groups: Seq<RegexGroup>, config: SmartCalcConfig) -> Option<Formula> {
    match group_named(groups, "NUMBER"@, 0) {
        Some(digits) => scaled_decimal(digits, None, config),
        None => None,
    }
}

/// What a match of a money pattern denotes: the amount of its group
/// `PRICE`, which its group `NOTATION` may scale, in the currency that its
/// group `CURRENCY` names.
pub open spec fn money_plan(groups: Seq<RegexGroup>, config: SmartCalcConfig) -> Option<
    (Formula, String),
> {
    match (group_named(groups, "PRICE"@, 0), group_named(groups, "CURRENCY"@, 0)) {
        (Some(price), Some(currency)) => match currency_named(
            config.currency_alias@,
            currency@,
            0,
        ) {
            Some(code) => match scaled_decimal(price, group_named(groups, "NOTATION"@, 0), config) {
                Some(formula) => Some((formula, code)),
                None => None,
            },
            None => None,
        },
        _ => None,
    }
}

/// The part of a time of day that a group holds as decimal digits.
pub open spec fn time_part(groups: Seq<RegexGroup>, name: Seq<char>) -> Option<u64> {
    match group_named(groups, name, 0) {
        Some(digits) => bounded(radix_value(digits@, 10)),
        None => None,
    }
}

/// The hour of the day that an hour before or after noon is. The marker
/// tells which by its first letter.
pub open spec fn hour_of_day(hour: u64, meridiem: Option<String>) -> Option<u64> {
    match meridiem {
        None => if hour < 24 {
            Some(hour)
        } else {
            None
        },
        Some(marker) => if marker@.len() == 0 || hour < 1 || hour > 12 {
            None
        } else if marker@[0] == 'p' || marker@[0] == 'P' {
            Some(
                if hour == 12 {
                    12u64
                } else {
                    (hour + 12) as u64
                },
            )
        } else if marker@[0] == 'a' || marker@[0] == 'A' {
            Some(
                if hour == 12 {
                    0u64
                } else {
                    hour
                },
            )
        } else {
            None
        },
    }
}

/// What a match of a time pattern denotes: the time of day of its groups
/// `hour` and `minute`, and of `second` and `meridiem` where it has them.
pub open spec fn time_of(groups: Seq<RegexGroup>) -> Option<ClockTime> {
    match (time_part(groups, "hour"@), time_part(groups, "minute"@)) {
        (Some(hour), Some(minute)) => {
            let second = match group_named(groups, "second"@, 0) {
                Some(digits) => bounded(radix_value(digits@, 10)),
                None => Some(0u64),
            };
            match (hour_of_day(hour, group_named(groups, "meridiem"@, 0)), second) {
                (Some(hour), Some(second)) => if minute < 60 && second < 60 {
                    Some(ClockTime { secs: (hour * 3600 + minute * 60 + second) as u32, frac: 0 })
                } else {
                    None
                },
                _ => None,
            }
        },
        _ => None,
    }
}

/// The placeholder that a kind and a name make.
pub open spec fn field_of(kind: Seq<char>, name: String, config: SmartCalcConfig) -> Option<
    Rc<FieldType>,
> {
    if kind == "TEXT"@ {
        Some(Rc::new(FieldType::Text(name)))
    } else if kind == "DATE"@ {
        Some(Rc::new(FieldType::Date(name)))
    } else if kind == "TIME"@ {
        Some(Rc::new(FieldType::Time(name)))
    } else if kind == "MONEY"@ {
        Some(Rc::new(FieldType::Money(name)))
    } else if kind == "PERCENT"@ {
        Some(Rc::new(FieldType::Percent(name)))
    } else if kind == "NUMBER"@ {
        Some(Rc::new(FieldType::Number(name)))
    } else if kind == "NUMBERORMONEY"@ {
        Some(Rc::new(FieldType::NumberOrMoney(name)))
    } else if kind == "GROUP"@ {
        word_group_named(config.word_groups@, name@, 0)
    } else {
        None
    }
}

/// What an atom of a kind and its data make: an operator, a text, a
/// number or a percentage.
pub open spec fn atom_of(kind: Seq<char>, data: String, config: SmartCalcConfig) -> Option<
    TokenPlan,
> {
    if kind == "OPERATOR"@ {
        match only_character(data@) {
            Some(operator) => Some(TokenPlan::Token(TokenType::Operator(operator))),
            None => None,
        }
    } else if kind == "TEXT"@ {
        Some(TokenPlan::Token(TokenType::Text(data)))
    } else if kind == "NUMBER"@ {
        match scaled_decimal(data, None, config) {
            Some(formula) => Some(TokenPlan::Compute(formula, Unit::Number)),
            None => None,
        }
    } else if kind == "PERCENT"@ {
        match scaled_decimal(data, None, config) {
            Some(formula) => Some(TokenPlan::Compute(formula, Unit::Percent)),
            None => None,
        }
    } else {
        None
    }
}

/// What a match of a pattern of a family is recognised as; `None` where
/// the match is nothing of that family after all.
pub open spec fn family_plan(
    family: TokenFamily,
    groups: Seq<RegexGroup>,
    config: SmartCalcConfig,
) -> Option<TokenPlan> {
    match family {
        TokenFamily::Percent => match percent_formula(groups, config) {
            Some(formula) => Some(TokenPlan::Compute(formula, Unit::Percent)),
            None => None,
        },
        TokenFamily::Time => match time_of(groups) {
            Some(time) => Some(TokenPlan::Token(TokenType::Time(time))),
            None => None,
        },
        TokenFamily::Money => match money_plan(groups, config) {
            Some((formula, code)) => Some(TokenPlan::Compute(formula, Unit::Money(code))),
            None => None,
        },
        TokenFamily::Number => match number_formula(groups, config) {
            Some(formula) => Some(TokenPlan::Compute(formula, Unit::Number)),
            None => None,
        },
        TokenFamily::Text => match group_named(groups, "TEXT"@, 0) {
            Some(text) => Some(TokenPlan::Token(TokenType::Text(text))),
            None => None,
        },
        TokenFamily::Field => match (
            group_named(groups, "FIELD"@, 0),
            group_named(groups, "NAME"@, 0),
        ) {
            (Some(kind), Some(name)) => match field_of(kind@, name, config) {
                Some(field) => Some(TokenPlan::Token(TokenType::Field(field))),
                None => None,
            },
            _ => None,
        },
        TokenFamily::Atom => match (
            group_named(groups, "ATOM"@, 0),
            group_named(groups, "DATA"@, 0),
        ) {
            (Some(kind), Some(data)) => atom_of(kind@, data, config),
            _ => None,
        },
        TokenFamily::Whitespace => Some(TokenPlan::Meaningless),
        TokenFamily::Operator => match group_named(groups, "OPERATOR"@, 0) {
            Some(text) => match only_character(text@) {
                Some(operator) => Some(TokenPlan::Token(TokenType::Operator(operator))),
                None => None,
            },
            None => None,
        },
        TokenFamily::Comment => Some(TokenPlan::Meaningless),
    }
}

/// Tells whether a text is spelled as a literal is.
pub fn text_is(text: &String, literal: &str) -> (same: bool)
    ensures
        same == (text@ == literal@),
{
    *text == literal.to_owned()
}

/// The text that the first group of a name captured.
pub fn named_group<'a>(groups: &'a Vec<RegexGroup>, name: &str) -> (text: Option<&'a String>)
    ensures
        match text {
            Some(found) => group_named(groups@, name@, 0) == Some(*found),
            None => group_named(groups@, name@, 0) is None,
        },
{
    let mut index: usize = 0;
    while index < groups.len()
        invariant
            0 <= index <= groups.len(),
            group_named(groups@, name@, 0) == group_named(groups@, name@, index as int),
        decreases groups.len() - index,
    {
        match (&groups[index].name, &groups[index].text) {
            (Some(label), Some(text)) => {
                if text_is(label, name) {
                    return Some(text);
                }
            },
            _ => {},
        }
        index += 1;
    }
    None
}

/// Decides [`only_character`].
pub fn single_character(text: &str) -> (character: Option<char>)
    ensures
        character == only_character(text@),
{
    if text.unicode_len() == 1 {
        Some(text.get_char(0))
    } else {
        None
    }
}

/// Decides [`notation_factor`].
pub fn factor_of(notation: &str) -> (factor: Option<Option<Formula>>)
    ensures
        factor == notation_factor(notation@),
{
    let count = notation.unicode_len();
    if count == 0 {
        return Some(None);
    }
    if count != 1 {
        return None;
    }
    let letter = notation.get_char(0);
    if letter == 'k' || letter == 'K' {
        Some(Some(Formula::Whole(1_000)))
    } else if letter == 'M' {
        Some(Some(Formula::Whole(1_000_000)))
    } else if letter == 'G' {
        Some(Some(Formula::Whole(1_000_000_000)))
    } else if letter == 'T' {
        Some(Some(Formula::Whole(1_000_000_000_000)))
    } else if letter == 'P' {
        Some(Some(Formula::Whole(1_000_000_000_000_000)))
    } else if letter == 'Z' {
        Some(
            Some(
                Formula::product(
                    Formula::Whole(1_000_000_000),
                    Formula::Whole(1_000_000_000_000),
                ),
            ),
        )
    } else if letter == 'Y' {
        Some(
            Some(
                Formula::product(
                    Formula::Whole(1_000_000_000_000),
                    Formula::Whole(1_000_000_000_000),
                ),
            ),
        )
    } else {
        None
    }
}

impl SmartCalcConfig {
    /// Decides [`scaled_decimal`].
    pub fn decimal(&self, digits: &String, notation: Option<&String>) -> (formula: Option<Formula>)
        ensures
            formula == scaled_decimal(
                *digits,
                match notation {
                    Some(letter) => Some(*letter),
                    None => None,
                },
                *self,
            ),
    {
        let number = match parse_decimal(
            digits.as_str(),
            self.thousand_separator,
            self.decimal_seperator,
        ) {
            Some(number) => number,
            None => {
                return None;
            },
        };
        let literal = Formula::Decimal {
            negative: number.negative,
            mantissa: number.mantissa,
            scale: number.scale,
        };
        match notation {
            None => Some(literal),
            Some(letter) => match factor_of(letter.as_str()) {
                None => None,
                Some(None) => Some(literal),
                Some(Some(factor)) => Some(Formula::product(literal, factor)),
            },
        }
    }
}

fn radix_number(digits: &String, radix: u64) -> (formula: Option<Formula>)
    requires
        1 <= radix <= 16,
    ensures
        formula == radix_formula(*digits, radix as int),
{
    match parse_radix(digits.as_str(), radix) {
        Some(value) => Some(Formula::Whole(value)),
        None => None,
    }
}

fn number_of_groups(groups: &Vec<RegexGroup>, config: &SmartCalcConfig) -> (formula: Option<Formula>)
    ensures
        formula == number_formula(groups@, *config),
{
    if let Some(digits) = named_group(groups, "HEX") {
        return radix_number(digits, 16);
    }
    if let Some(digits) = named_group(groups, "OCTAL") {
        return radix_number(digits, 8);
    }
    if let Some(digits) = named_group(groups, "BINARY") {
        return radix_number(digits, 2);
    }
    match named_group(groups, "DECIMAL") {
        Some(digits) => config.decimal(digits, named_group(groups, "NOTATION")),
        None => None,
    }
}

fn money_of_groups(groups: &Vec<RegexGroup>, config: &SmartCalcConfig) -> (plan: Option<
    (Formula, String),
>)
    ensures
        plan == money_plan(groups@, *config),
{
    match (named_group(groups, "PRICE"), named_group(groups, "CURRENCY")) {
        (Some(price), Some(currency)) => match config.currency(currency.as_str()) {
            Some(code) => match config.decimal(price, named_group(groups, "NOTATION")) {
                Some(formula) => Some((formula, code)),
                None => None,
            },
            None => None,
        },
        _ => None,
    }
}

fn part_of_time(groups: &Vec<RegexGroup>, name: &str) -> (part: Option<u64>)
    ensures
        part == time_part(groups@, name@),
{
    match named_group(groups, name) {
        Some(digits) => parse_radix(digits.as_str(), 10),
        None => None,
    }
}

fn day_hour(hour: u64, meridiem: Option<&String>) -> (of_day: Option<u64>)
    ensures
        of_day == hour_of_day(
            hour,
            match meridiem {
                Some(marker) => Some(*marker),
                None => None,
            },
        ),
{
    match meridiem {
        None => if hour < 24 {
            Some(hour)
        } else {
            None
        },
        Some(marker) => {
            if marker.as_str().unicode_len() == 0 || hour < 1 || hour > 12 {
                return None;
            }
            let letter = marker.as_str().get_char(0);
            if letter == 'p' || letter == 'P' {
                Some(
                    if hour == 12 {
                        12
                    } else {
                        hour + 12
                    },
                )
            } else if letter == 'a' || letter == 'A' {
                Some(
                    if hour == 12 {
                        0
                    } else {
                        hour
                    },
                )
            } else {
                None
            }
        },
    }
}

fn time_of_groups(groups: &Vec<RegexGroup>) -> (time: Option<ClockTime>)
    ensures
        time == time_of(groups@),
{
    match (part_of_time(groups, "hour"), part_of_time(groups, "minute")) {
        (Some(hour), Some(minute)) => {
            let second = match named_group(groups, "second") {
                Some(digits) => parse_radix(digits.as_str(), 10),
                None => Some(0),
            };
            match (day_hour(hour, named_group(groups, "meridiem")), second) {
                (Some(hour), Some(second)) => {
                    if minute < 60 && second < 60 {
                        assert(hour < 24);
                        let secs: u64 = hour * 3600 + minute * 60 + second;
                        Some(ClockTime { secs: secs as u32, frac: 0 })
                    } else {
                        None
                    }
                },
                _ => None,
            }
        },
        _ => None,
    }
}

fn field_of_kind(kind: &String, name: &String, config: &SmartCalcConfig) -> (field: Option<
    Rc<FieldType>,
>)
    ensures
        field == field_of(kind@, *name, *config),
{
    if text_is(kind, "TEXT") {
        Some(Rc::new(FieldType::Text(name.clone())))
    } else if text_is(kind, "DATE") {
        Some(Rc::new(FieldType::Date(name.clone())))
    } else if text_is(kind, "TIME") {
        Some(Rc::new(FieldType::Time(name.clone())))
    } else if text_is(kind, "MONEY") {
        Some(Rc::new(FieldType::Money(name.clone())))
    } else if text_is(kind, "PERCENT") {
        Some(Rc::new(FieldType::Percent(name.clone())))
    } else if text_is(kind, "NUMBER") {
        Some(Rc::new(FieldType::Number(name.clone())))
    } else if text_is(kind, "NUMBERORMONEY") {
        Some(Rc::new(FieldType::NumberOrMoney(name.clone())))
    } else if text_is(kind, "GROUP") {
        config.word_group(name)
    } else {
        None
    }
}

fn atom_of_kind(kind: &String, data: &String, config: &SmartCalcConfig) -> (plan: Option<TokenPlan>)
    ensures
        plan == atom_of(kind@, *data, *config),
{
    if text_is(kind, "OPERATOR") {
        match single_character(data.as_str()) {
            Some(operator) => Some(TokenPlan::Token(TokenType::Operator(operator))),
            None => None,
        }
    } else if text_is(kind, "TEXT") {
        Some(TokenPlan::Token(TokenType::Text(data.clone())))
    } else if text_is(kind, "NUMBER") {
        match config.decimal(data, None) {
            Some(formula) => Some(TokenPlan::Compute(formula, Unit::Number)),
            None => None,
        }
    } else if text_is(kind, "PERCENT") {
        match config.decimal(data, None) {
            Some(formula) => Some(TokenPlan::Compute(formula, Unit::Percent)),
            None => None,
        }
    } else {
        None
    }
}

/// Decides [`family_plan`]: what a match of a pattern of a family is
/// recognised as.
pub fn plan_token(family: TokenFamily, capture: &RegexCapture, config: &SmartCalcConfig) -> (plan:
    Option<TokenPlan>)
    ensures
        plan == family_plan(family, capture.groups@, *config),
{
    let groups = &capture.groups;
    match family {
        TokenFamily::Percent => match named_group(groups, "NUMBER") {
            Some(digits) => match config.decimal(digits, None) {
                Some(formula) => Some(TokenPlan::Compute(formula, Unit::Percent)),
                None => None,
            },
            None => None,
        },
        TokenFamily::Time => match time_of_groups(groups) {
            Some(time) => Some(TokenPlan::Token(TokenType::Time(time))),
            None => None,
        },
        TokenFamily::Money => match money_of_groups(groups, config) {
            Some((formula, code)) => Some(TokenPlan::Compute(formula, Unit::Money(code))),
            None => None,
        },
        TokenFamily::Number => match number_of_groups(groups, config) {
            Some(formula) => Some(TokenPlan::Compute(formula, Unit::Number)),
            None => None,
        },
        TokenFamily::Text => match named_group(groups, "TEXT") {
            Some(text) => Some(TokenPlan::Token(TokenType::Text(text.clone()))),
            None => None,
        },
        TokenFamily::Field => match (named_group(groups, "FIELD"), named_group(groups, "NAME")) {
            (Some(kind), Some(name)) => match field_of_kind(kind, name, config) {
                Some(field) => Some(TokenPlan::Token(TokenType::Field(field))),
                None => None,
            },
            _ => None,
        },
        TokenFamily::Atom => match (named_group(groups, "ATOM"), named_group(groups, "DATA")) {
            (Some(kind), Some(data)) => atom_of_kind(kind, data, config),
            _ => None,
        },
        TokenFamily::Whitespace => Some(TokenPlan::Meaningless),
        TokenFamily::Operator => match named_group(groups, "OPERATOR") {
            Some(text) => match single_character(text.as_str()) {
                Some(operator) => Some(TokenPlan::Token(TokenType::Operator(operator))),
                None => None,
            },
            None => None,
        },
        TokenFamily::Comment => Some(TokenPlan::Meaningless),
    }
}

} // verus!
