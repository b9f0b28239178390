use smartcalc::binary64::Binary64;
use smartcalc::compiler::item::RateTable;
use smartcalc::config::SmartCalcConfig;
use smartcalc::formula::Formula;
use smartcalc::pattern::TokenRegex;
use smartcalc::tokinizer::scan::{tokenize, TokenParseRegexes};
use smartcalc::tokinizer::{TokenLocation, TokenLocationStatus};
use smartcalc::types::{FieldType, Token, TokenType};
use smartcalc::worker::engine::apply_rules;
use smartcalc::worker::rule::{RuleFunction, RuleLanguage};
use smartcalc::worker::rules::number_rules::{
    amount_request, number_of, number_off, number_on, AmountRule,
};
use smartcalc::worker::tools::{RuleFields, Unit};
use std::rc::Rc;

fn value_of(formula: &Formula) -> f64 {
    match formula {
        Formula::Value(value) => f64::from_bits(value.to_bits()),
        Formula::Whole(value) => *value as f64,
        Formula::Decimal { negative, mantissa, scale } => {
            let sign = if *negative { "-" } else { "" };
            format!("{}{}e-{}", sign, mantissa, scale).parse().unwrap()
        }
        Formula::Sum(left, right) => value_of(left) + value_of(right),
        Formula::Difference(left, right) => value_of(left) - value_of(right),
        Formula::Product(left, right) => value_of(left) * value_of(right),
        Formula::Quotient(left, right) => value_of(left) / value_of(right),
    }
}

fn evaluate(formula: Formula) -> Binary64 {
    Binary64::from_bits(value_of(&formula).to_bits())
}

fn number(value: f64) -> Binary64 {
    Binary64::from_bits(value.to_bits())
}

fn location(start: usize, text: &str, token_type: TokenType) -> TokenLocation {
    TokenLocation {
        start,
        end: start + text.len(),
        token_type: Some(token_type),
        original_text: text.to_string(),
        status: TokenLocationStatus::Active,
    }
}

fn element(token: TokenType) -> Token {
    Token { start: 0, end: 0, token }
}

fn word(text: &str) -> Token {
    element(TokenType::Text(text.to_string()))
}

fn percent_field(name: &str) -> Token {
    element(TokenType::Field(Rc::new(FieldType::Percent(name.to_string()))))
}

fn number_field(name: &str) -> Token {
    element(TokenType::Field(Rc::new(FieldType::Number(name.to_string()))))
}

fn money_field(name: &str) -> Token {
    element(TokenType::Field(Rc::new(FieldType::Money(name.to_string()))))
}

fn english() -> RuleLanguage {
    RuleLanguage {
        languages: vec![(
            "en".to_string(),
            vec![
                (
                    RuleFunction::NumberOn,
                    vec![
                        vec![percent_field("p"), word("on"), money_field("number")],
                        vec![percent_field("p"), word("on"), number_field("number")],
                    ],
                ),
                (
                    RuleFunction::NumberOf,
                    vec![vec![percent_field("p"), word("of"), number_field("number")]],
                ),
                (
                    RuleFunction::NumberOff,
                    vec![vec![percent_field("p"), word("off"), number_field("number")]],
                ),
            ],
        )],
    }
}

fn execute(percent: f64, preposition: &str, amount: TokenType) -> Vec<TokenLocation> {
    let tokens = vec![
        location(0, "6%", TokenType::Percent(number(percent))),
        location(3, preposition, TokenType::Text(preposition.to_string())),
        location(4 + preposition.len(), "40", amount),
    ];
    let config = SmartCalcConfig {
        thousand_separator: ',',
        decimal_seperator: '.',
        currency_alias: vec![],
        currency_rates: RateTable { rates: vec![] },
        word_groups: vec![],
    };
    apply_rules("en", tokens, &english(), &config, &evaluate)
}

fn shipped(patterns: &[&str]) -> Vec<TokenRegex> {
    patterns.iter().map(|pattern| TokenRegex::new(pattern).unwrap()).collect()
}

fn shipped_regexes() -> TokenParseRegexes {
    TokenParseRegexes::comments_first(
        shipped(&[
            r"(?P<NUMBER>[-+]?[0-9]+([,\.][0-9]+){0,})(?P<PERCENT>%)",
            r"(?P<PERCENT>%)(?P<NUMBER>[-+]?[0-9]+([,\.][0-9]+){0,})",
        ]),
        Vec::new(),
        shipped(&[
            r"(?P<CURRENCY>\p{Currency_Symbol})(?P<PRICE>[-+]?[0-9]+[0-9.,]{0,})(?P<NOTATION>[kKMGTPZY]{0,1})",
        ]),
        shipped(&[
            r"0[xX](?P<HEX>[0-9a-fA-F]+)",
            r"0[oO](?P<OCTAL>[0-7]+)",
            r"0[bB](?P<BINARY>[01]+)",
            r"(?P<DECIMAL>[-+]?[0-9]+[0-9.,]{0,})(?P<NOTATION>[kKMGTPZY]{0,1})",
        ]),
        shipped(&[r"(?P<TEXT>[\p{L}]+)"]),
        shipped(&[r"(\{(?P<FIELD>[A-Z]+):(?P<NAME>[^}]+)\})"]),
        shipped(&[r"(\[(?P<ATOM>[A-Z]+):(?P<DATA>[^\]]+)\])"]),
        shipped(&[r"(?P<WHITESPACE>[ ]+)"]),
        shipped(&[r"(?P<OPERATOR>[^0-9\p{L} ])"]),
        shipped(&["#[^\r\n]+"]),
    )
}

fn execute_text(text: &str) -> Vec<TokenType> {
    let config = SmartCalcConfig {
        thousand_separator: ',',
        decimal_seperator: '.',
        currency_alias: vec![("$".to_string(), "usd".to_string())],
        currency_rates: RateTable { rates: vec![] },
        word_groups: vec![],
    };
    let tokens = tokenize(text, &shipped_regexes(), &config, &evaluate).unwrap();
    apply_rules("en", tokens, &english(), &config, &evaluate)
        .into_iter()
        .filter_map(|location| location.token_type)
        .collect()
}

#[test]
fn number_on_1() {
    let tokens = execute_text("6% on 40");

    assert_eq!(tokens[0], TokenType::Number(number(42.4)));
}

#[test]
fn number_of_1() {
    let tokens = execute_text("6% of 40");

    assert_eq!(tokens[0], TokenType::Number(number(2.4)));
}

#[test]
fn number_off_1() {
    let tokens = execute_text("6% off 40");

    assert_eq!(tokens[0], TokenType::Number(number(37.6)));
}

#[test]
fn percent_of_a_number_built_by_hand() {
    for (preposition, expected) in [("on", 42.4), ("of", 2.4), ("off", 37.6)] {
        let tokens = execute(6.0, preposition, TokenType::Number(number(40.0)));
        assert_eq!(tokens.len(), 1);
        assert_eq!(tokens[0].token_type, Some(TokenType::Number(number(expected))));
    }
    assert_eq!(execute_text("6% on $40"), vec![TokenType::Money(number(42.4), "usd".to_string())]);
}

#[test]
fn reduced_token_spans_the_matched_text() {
    let tokens = execute(6.0, "on", TokenType::Number(number(40.0)));
    assert_eq!(tokens[0].start, 0);
    assert_eq!(tokens[0].end, 8);
    assert_eq!(tokens[0].original_text, "6%on40");
    assert_eq!(tokens[0].status, TokenLocationStatus::Active);
}

#[test]
fn percent_on_money_keeps_the_currency() {
    let tokens = execute(6.0, "on", TokenType::Money(number(40.0), "usd".to_string()));
    assert_eq!(tokens.len(), 1);
    assert_eq!(
        tokens[0].token_type,
        Some(TokenType::Money(number(42.4), "usd".to_string()))
    );
}

#[test]
fn handlers_called_directly() {
    let percent = location(0, "6%", TokenType::Percent(number(6.0)));
    let amount = location(6, "40", TokenType::Number(number(40.0)));
    let mut fields = RuleFields::new();
    fields.insert("p".to_string(), &percent);
    fields.insert("number".to_string(), &amount);
    assert_eq!(number_on(&fields, &evaluate), Ok(TokenType::Number(number(42.4))));
    assert_eq!(number_of(&fields, &evaluate), Ok(TokenType::Number(number(2.4))));
    assert_eq!(number_off(&fields, &evaluate), Ok(TokenType::Number(number(37.6))));
}

#[test]
fn request_states_the_formula() {
    let percent = location(0, "6%", TokenType::Percent(number(6.0)));
    let amount = location(6, "40", TokenType::Number(number(40.0)));
    let mut fields = RuleFields::new();
    fields.insert("p".to_string(), &percent);
    fields.insert("number".to_string(), &amount);
    let request = amount_request(&fields, AmountRule::Off).unwrap();
    assert!(matches!(request.unit, Unit::Number));
    match request.formula {
        Formula::Difference(left, right) => {
            assert!(matches!(*left, Formula::Value(value) if value.to_bits() == 40.0f64.to_bits()));
            match *right {
                Formula::Quotient(product, hundred) => {
                    assert!(matches!(*hundred, Formula::Value(value) if value.to_bits() == 100.0f64.to_bits()));
                    match *product {
                        Formula::Product(first, second) => {
                            assert!(matches!(*first, Formula::Value(value) if value.to_bits() == 40.0f64.to_bits()));
                            assert!(matches!(*second, Formula::Value(value) if value.to_bits() == 6.0f64.to_bits()));
                        }
                        _ => panic!("the share is a product divided by a hundred"),
                    }
                }
                _ => panic!("the share is a quotient"),
            }
        }
        _ => panic!("off is a difference"),
    }
}

#[test]
fn missing_capture_is_refused() {
    let percent = location(0, "6%", TokenType::Percent(number(6.0)));
    let mut fields = RuleFields::new();
    fields.insert("p".to_string(), &percent);
    assert_eq!(number_on(&fields, &evaluate), Err("Number type not valid".to_string()));
    assert_eq!(number_of(&fields, &evaluate), Err("Number type not valid".to_string()));
    assert_eq!(number_off(&fields, &evaluate), Err("Number type not valid".to_string()));
}

#[test]
fn capture_of_the_wrong_kind_is_refused() {
    let percent = location(0, "6%", TokenType::Percent(number(6.0)));
    let text = location(6, "forty", TokenType::Text("forty".to_string()));
    let mut fields = RuleFields::new();
    fields.insert("p".to_string(), &percent);
    fields.insert("number".to_string(), &text);
    assert_eq!(
        number_on(&fields, &evaluate),
        Err("Number information not valid".to_string())
    );
    let amount = location(6, "40", TokenType::Number(number(40.0)));
    let mut swapped = RuleFields::new();
    swapped.insert("p".to_string(), &amount);
    swapped.insert("number".to_string(), &amount);
    assert_eq!(
        number_on(&swapped, &evaluate),
        Err("Percent information not valid".to_string())
    );
}

#[test]
fn later_capture_replaces_earlier_of_the_same_name() {
    let first = location(0, "1", TokenType::Number(number(1.0)));
    let second = location(2, "40", TokenType::Number(number(40.0)));
    let percent = location(6, "6%", TokenType::Percent(number(6.0)));
    let mut fields = RuleFields::new();
    fields.insert("number".to_string(), &first);
    fields.insert("p".to_string(), &percent);
    fields.insert("number".to_string(), &second);
    assert_eq!(number_of(&fields, &evaluate), Ok(TokenType::Number(number(2.4))));
    assert!(fields.contains_key("number"));
    assert!(!fields.contains_key("amount"));
}
