use smartcalc::binary64::Binary64;
use smartcalc::types::{
    token_type_agrees, token_type_equals, token_type_matches, ClockTime, FieldType, TokenType,
};
use std::rc::Rc;

fn number(value: f64) -> TokenType {
    TokenType::Number(Binary64::from_bits(value.to_bits()))
}

fn percent(value: f64) -> TokenType {
    TokenType::Percent(Binary64::from_bits(value.to_bits()))
}

fn money(value: f64, currency: &str) -> TokenType {
    TokenType::Money(Binary64::from_bits(value.to_bits()), currency.to_string())
}

fn text(word: &str) -> TokenType {
    TokenType::Text(word.to_string())
}

fn field(field: FieldType) -> TokenType {
    TokenType::Field(Rc::new(field))
}

fn name() -> String {
    "n".to_string()
}

#[test]
fn values_of_one_kind_are_equal_by_value() {
    assert_eq!(number(1.5), number(1.5));
    assert_ne!(number(1.5), number(2.5));
    assert_eq!(number(0.0), number(-0.0));
    assert_ne!(number(f64::NAN), number(f64::NAN));
    assert_eq!(percent(6.0), percent(6.0));
    assert_ne!(percent(6.0), percent(7.0));
    assert_eq!(money(5.0, "usd"), money(5.0, "usd"));
    assert_ne!(money(5.0, "usd"), money(5.0, "eur"));
    assert_ne!(money(5.0, "usd"), money(6.0, "usd"));
    assert_eq!(text("on"), text("on"));
    assert_ne!(text("on"), text("off"));
    assert_eq!(TokenType::Operator('+'), TokenType::Operator('+'));
    assert_ne!(TokenType::Operator('+'), TokenType::Operator('-'));
    let noon = ClockTime { secs: 43_200, frac: 0 };
    assert_eq!(TokenType::Time(noon), TokenType::Time(noon));
    assert_ne!(TokenType::Time(noon), TokenType::Time(ClockTime { secs: 43_201, frac: 0 }));
}

#[test]
fn values_of_unlike_kinds_are_unequal() {
    assert_ne!(number(6.0), percent(6.0));
    assert_ne!(number(6.0), money(6.0, "usd"));
    assert_ne!(percent(6.0), money(6.0, "usd"));
    assert_ne!(number(6.0), text("6"));
    assert_ne!(text("+"), TokenType::Operator('+'));
}

#[test]
fn placeholder_equals_every_value_of_its_kind() {
    for value in [0.0, 1.0, -17.5, 1e300, f64::NAN] {
        assert_eq!(field(FieldType::Number(name())), number(value));
        assert_eq!(number(value), field(FieldType::Number(name())));
        assert_eq!(field(FieldType::Percent(name())), percent(value));
        assert_eq!(field(FieldType::Money(name())), money(value, "usd"));
        assert_eq!(field(FieldType::NumberOrMoney(name())), number(value));
        assert_eq!(field(FieldType::NumberOrMoney(name())), money(value, "try"));
    }
    assert_eq!(field(FieldType::Text(name())), text("anything"));
    assert_eq!(text("anything"), field(FieldType::Text(name())));
    let noon = ClockTime { secs: 43_200, frac: 0 };
    assert_eq!(field(FieldType::Time(name())), TokenType::Time(noon));
}

#[test]
fn placeholder_equals_no_value_of_another_kind() {
    assert_ne!(field(FieldType::Number(name())), percent(6.0));
    assert_ne!(field(FieldType::Number(name())), money(6.0, "usd"));
    assert_ne!(field(FieldType::Number(name())), text("six"));
    assert_ne!(field(FieldType::Percent(name())), number(6.0));
    assert_ne!(field(FieldType::Money(name())), number(6.0));
    assert_ne!(field(FieldType::NumberOrMoney(name())), percent(6.0));
    assert_ne!(field(FieldType::Text(name())), number(6.0));
    assert_ne!(field(FieldType::Date(name())), text("today"));
    assert_ne!(TokenType::Operator('+'), field(FieldType::Text(name())));
}

#[test]
fn group_equals_a_text_that_is_one_of_its_words() {
    let hours = || field(FieldType::Group(vec!["hour".to_string(), "hours".to_string()]));
    assert_eq!(hours(), text("hour"));
    assert_eq!(text("hours"), hours());
    assert_ne!(hours(), text("days"));
    assert_ne!(hours(), text("Hour"));
    assert_ne!(hours(), number(1.0));
}

#[test]
fn two_placeholders_are_equal_when_they_are_the_same() {
    assert_eq!(field(FieldType::Number(name())), field(FieldType::Number(name())));
    assert_ne!(field(FieldType::Number(name())), field(FieldType::Number("m".to_string())));
    assert_ne!(field(FieldType::Number(name())), field(FieldType::Percent(name())));
    assert_ne!(field(FieldType::Number(name())), field(FieldType::NumberOrMoney(name())));
    let hours = || FieldType::Group(vec!["hour".to_string(), "hours".to_string()]);
    assert_eq!(field(hours()), field(hours()));
    assert_ne!(field(hours()), field(FieldType::Group(vec!["hour".to_string()])));
}

#[test]
fn the_three_relations_differ_where_they_should() {
    let placeholder = field(FieldType::Number(name()));
    let noon = TokenType::Time(ClockTime { secs: 43_200, frac: 0 });
    // Strict equality knows of no placeholder.
    assert!(!token_type_equals(&placeholder, &number(1.0)));
    assert!(token_type_equals(&placeholder, &field(FieldType::Number(name()))));
    assert!(token_type_equals(&noon, &noon));
    // Matching a pattern knows of no time and of no pair of placeholders.
    assert!(token_type_matches(&placeholder, &number(1.0)));
    assert!(!token_type_matches(&placeholder, &field(FieldType::Number(name()))));
    assert!(!token_type_matches(&noon, &noon));
    // Equality takes the one where the other fails.
    assert!(token_type_agrees(&placeholder, &number(1.0)));
    assert!(token_type_agrees(&placeholder, &field(FieldType::Number(name()))));
    assert!(token_type_agrees(&noon, &noon));
    assert!(!token_type_agrees(&noon, &number(1.0)));
}
