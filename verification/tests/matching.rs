use smartcalc::binary64::Binary64;
use smartcalc::tokinizer::{TokenLocation, TokenLocationStatus};
use smartcalc::types::{
    BramaAstType, BramaNumberSystem, CalendarTime, CharTraits, ClockTime, FieldType, Money, Token,
    TokenType, TokinizerBackup, VariableInfo,
};
use std::rc::Rc;

fn number(value: f64) -> Binary64 {
    Binary64::from_bits(value.to_bits())
}

fn element(token: TokenType) -> Token {
    Token { start: 0, end: 0, token }
}

fn word(text: &str) -> Token {
    element(TokenType::Text(text.to_string()))
}

fn field(field: FieldType) -> TokenType {
    TokenType::Field(Rc::new(field))
}

fn location(token_type: Option<TokenType>) -> TokenLocation {
    TokenLocation {
        start: 0,
        end: 1,
        token_type,
        original_text: "x".to_string(),
        status: TokenLocationStatus::Active,
    }
}

fn variable(index: usize, name: &str, value: f64) -> Rc<VariableInfo> {
    Rc::new(VariableInfo {
        index,
        name: name.to_string(),
        tokens: vec![word(name)],
        data: Rc::new(BramaAstType::Number(number(value))),
    })
}

#[test]
fn is_same_finds_the_first_window() {
    let tokens = vec![word("a"), word("b"), word("a"), word("b")];
    assert_eq!(Token::is_same(&tokens, &vec![word("a"), word("b")]), Some(0));
    assert_eq!(Token::is_same(&tokens, &vec![word("b"), word("a")]), Some(1));
    assert_eq!(Token::is_same(&tokens, &vec![word("b"), word("b")]), None);
    assert_eq!(Token::is_same(&tokens, &vec![word("b")]), Some(1));
}

#[test]
fn is_same_finds_a_window_behind_a_partial_match() {
    let tokens = vec![word("a"), word("a"), word("a"), word("b")];
    assert_eq!(Token::is_same(&tokens, &vec![word("a"), word("a"), word("b")]), Some(1));
}

#[test]
fn is_same_edge_cases() {
    let tokens = vec![word("a")];
    let nothing: Vec<Token> = Vec::new();
    assert_eq!(Token::is_same(&tokens, &nothing), Some(0));
    assert_eq!(Token::is_same(&nothing, &nothing), Some(0));
    assert_eq!(Token::is_same(&nothing, &tokens), None);
    assert_eq!(Token::is_same(&tokens, &vec![word("a"), word("a")]), None);
}

#[test]
fn is_same_location_matches_placeholders_by_kind() {
    let tokens = vec![
        location(Some(TokenType::Text("pay".to_string()))),
        location(Some(TokenType::Percent(number(6.0)))),
        location(Some(TokenType::Text("on".to_string()))),
        location(Some(TokenType::Money(number(40.0), "usd".to_string()))),
    ];
    let rule = vec![
        element(field(FieldType::Percent("p".to_string()))),
        word("on"),
        element(field(FieldType::NumberOrMoney("number".to_string()))),
    ];
    assert_eq!(Token::is_same_location(&tokens, &rule), Some(1));
    let other = vec![
        element(field(FieldType::Percent("p".to_string()))),
        word("on"),
        element(field(FieldType::Number("number".to_string()))),
    ];
    assert_eq!(Token::is_same_location(&tokens, &other), None);
}

#[test]
fn is_same_location_skips_locations_without_meaning_or_removed() {
    let mut removed = location(Some(TokenType::Text("on".to_string())));
    removed.status = TokenLocationStatus::Removed;
    let tokens = vec![
        location(None),
        removed,
        location(Some(TokenType::Text("on".to_string()))),
    ];
    assert_eq!(Token::is_same_location(&tokens, &vec![word("on")]), Some(2));
    let nothing: Vec<Token> = Vec::new();
    assert_eq!(Token::is_same_location(&tokens, &nothing), Some(0));
}

#[test]
fn token_equality_is_by_value_for_values() {
    assert!(word("a") == word("a"));
    assert!(word("a") != word("b"));
    assert!(element(TokenType::Number(number(1.5))) == element(TokenType::Number(number(1.5))));
    assert!(element(TokenType::Number(number(1.5))) != element(TokenType::Number(number(2.5))));
    assert!(element(TokenType::Number(number(1.5))) != element(TokenType::Percent(number(1.5))));
    assert!(element(TokenType::Operator('+')) == element(TokenType::Operator('+')));
    assert!(element(TokenType::Operator('+')) != element(TokenType::Operator('-')));
    assert!(
        element(TokenType::Money(number(2.0), "usd".to_string()))
            == element(TokenType::Money(number(2.0), "usd".to_string()))
    );
    assert!(
        element(TokenType::Money(number(2.0), "usd".to_string()))
            != element(TokenType::Money(number(2.0), "eur".to_string()))
    );
    let first = Token { start: 1, end: 2, token: TokenType::Text("a".to_string()) };
    let second = Token { start: 7, end: 9, token: TokenType::Text("a".to_string()) };
    assert!(first == second);
}

#[test]
fn token_equality_is_by_kind_for_placeholders() {
    let percent = element(field(FieldType::Percent("p".to_string())));
    assert!(percent == element(TokenType::Percent(number(6.0))));
    assert!(element(TokenType::Percent(number(6.0))) == percent);
    assert!(percent != element(TokenType::Number(number(6.0))));
    let either = element(field(FieldType::NumberOrMoney("n".to_string())));
    assert!(either == element(TokenType::Number(number(6.0))));
    assert!(either == element(TokenType::Money(number(6.0), "usd".to_string())));
    assert!(either != element(TokenType::Percent(number(6.0))));
    let time = ClockTime { secs: 3600, frac: 0 };
    assert!(element(field(FieldType::Time("t".to_string()))) == element(TokenType::Time(time)));
    assert!(element(TokenType::Time(time)) != element(TokenType::Time(time)));
    let date = CalendarTime { days: 738000, time };
    assert!(element(field(FieldType::Date("d".to_string()))) != element(TokenType::Date(date)));
    assert!(percent != element(field(FieldType::Percent("p".to_string()))));
}

#[test]
fn group_placeholder_matches_its_words() {
    let hours =
        element(field(FieldType::Group(vec!["hour".to_string(), "hours".to_string()])));
    assert!(hours == word("hours"));
    assert!(word("hour") == hours);
    assert!(hours != word("week"));
    assert!(hours != element(TokenType::Number(number(1.0))));
}

#[test]
fn token_type_equality_of_placeholders_times_and_dates() {
    let placeholder = field(FieldType::Percent("p".to_string()));
    assert!(placeholder == TokenType::Percent(number(6.0)));
    assert!(TokenType::Percent(number(6.0)) == placeholder);
    assert!(placeholder != TokenType::Number(number(6.0)));
    assert!(placeholder == field(FieldType::Percent("p".to_string())));
    assert!(placeholder != field(FieldType::Percent("q".to_string())));
    assert!(placeholder != field(FieldType::Number("p".to_string())));
    let time = ClockTime { secs: 3600, frac: 0 };
    assert!(TokenType::Time(time) == TokenType::Time(time));
    assert!(TokenType::Time(time) != TokenType::Time(ClockTime { secs: 3600, frac: 1 }));
    let date = CalendarTime { days: 738000, time };
    assert!(TokenType::Date(date) != TokenType::Date(date));
    assert!(TokenType::DateTime(date) != TokenType::DateTime(date));
    assert!(
        field(FieldType::Group(vec!["in".to_string(), "to".to_string()]))
            == field(FieldType::Group(vec!["in".to_string(), "to".to_string()]))
    );
    assert!(
        field(FieldType::Group(vec!["in".to_string(), "to".to_string()]))
            != field(FieldType::Group(vec!["to".to_string(), "in".to_string()]))
    );
}

#[test]
fn numbers_compare_as_binary64_values() {
    let nan = number(f64::NAN);
    assert!(TokenType::Number(nan) != TokenType::Number(nan));
    assert!(TokenType::Number(number(0.0)) == TokenType::Number(number(-0.0)));
    assert!(TokenType::Number(number(1.0)) != TokenType::Number(number(-1.0)));
    assert!(TokenType::Number(number(f64::INFINITY)) == TokenType::Number(number(f64::INFINITY)));
    assert!(number(0.1 + 0.2) != number(0.3));
}

#[test]
fn variables_compare_by_index_name_tokens_and_value() {
    let x = variable(0, "x", 10.0);
    assert!(TokenType::Variable(x.clone()) == TokenType::Variable(variable(0, "x", 10.0)));
    assert!(TokenType::Variable(x.clone()) != TokenType::Variable(variable(1, "x", 10.0)));
    assert!(TokenType::Variable(x.clone()) != TokenType::Variable(variable(0, "y", 10.0)));
    assert!(TokenType::Variable(x.clone()) != TokenType::Variable(variable(0, "x", 20.0)));
    assert!(*x == *variable(0, "x", 10.0));
    let mut longer = VariableInfo {
        index: 0,
        name: "x".to_string(),
        tokens: vec![word("x"), word("y")],
        data: Rc::new(BramaAstType::Number(number(10.0))),
    };
    assert!(*x != longer);
    longer.tokens = vec![element(field(FieldType::Text("any".to_string())))];
    assert!(*x == longer);
}

#[test]
fn syntax_trees_compare_by_shape() {
    let sum = |left: f64, right: f64| BramaAstType::Binary {
        left: Rc::new(BramaAstType::Number(number(left))),
        operator: '+',
        right: Rc::new(BramaAstType::Percent(number(right))),
    };
    assert!(sum(120.0, 30.0) == sum(120.0, 30.0));
    assert!(sum(120.0, 30.0) != sum(120.0, 31.0));
    assert!(BramaAstType::Nothing == BramaAstType::Nothing);
    assert!(BramaAstType::Nothing != BramaAstType::Number(number(0.0)));
    assert!(
        BramaAstType::PrefixUnary('-', Rc::new(BramaAstType::Number(number(1.0))))
            != BramaAstType::PrefixUnary('+', Rc::new(BramaAstType::Number(number(1.0))))
    );
    assert!(
        BramaAstType::Assignment { index: 1, expression: Rc::new(sum(1.0, 2.0)) }
            == BramaAstType::Assignment { index: 1, expression: Rc::new(sum(1.0, 2.0)) }
    );
    assert!(
        BramaAstType::Symbol("x".to_string()) == BramaAstType::Symbol("x".to_string())
    );
    assert!(
        BramaAstType::Variable(variable(0, "x", 1.0)) == BramaAstType::Variable(variable(0, "x", 1.0))
    );
}

#[test]
fn variable_compare_by_value_and_by_kind() {
    let text = location(Some(TokenType::Text("x".to_string())));
    assert!(Token::variable_compare(&text, Rc::new(BramaAstType::Symbol("x".to_string()))));
    assert!(!Token::variable_compare(&text, Rc::new(BramaAstType::Symbol("y".to_string()))));
    let ten = location(Some(TokenType::Number(number(10.0))));
    assert!(Token::variable_compare(&ten, Rc::new(BramaAstType::Number(number(10.0)))));
    assert!(!Token::variable_compare(&ten, Rc::new(BramaAstType::Number(number(11.0)))));
    assert!(!Token::variable_compare(&ten, Rc::new(BramaAstType::Percent(number(10.0)))));
    let money = location(Some(TokenType::Money(number(5.0), "usd".to_string())));
    assert!(Token::variable_compare(
        &money,
        Rc::new(BramaAstType::Money(number(5.0), "usd".to_string()))
    ));
    assert!(!Token::variable_compare(
        &money,
        Rc::new(BramaAstType::Money(number(5.0), "eur".to_string()))
    ));
    let any = location(Some(field(FieldType::NumberOrMoney("n".to_string()))));
    assert!(Token::variable_compare(&any, Rc::new(BramaAstType::Number(number(1.0)))));
    assert!(Token::variable_compare(
        &any,
        Rc::new(BramaAstType::Money(number(1.0), "usd".to_string()))
    ));
    assert!(!Token::variable_compare(&any, Rc::new(BramaAstType::Percent(number(1.0)))));
    let name = location(Some(field(FieldType::Text("t".to_string()))));
    assert!(Token::variable_compare(&name, Rc::new(BramaAstType::Symbol("x".to_string()))));
    assert!(!Token::variable_compare(&location(None), Rc::new(BramaAstType::Nothing)));
    let mut removed = location(Some(TokenType::Number(number(10.0))));
    removed.status = TokenLocationStatus::Removed;
    assert!(!Token::variable_compare(&removed, Rc::new(BramaAstType::Number(number(10.0)))));
}

#[test]
fn get_field_name_of_placeholders() {
    let named = |field_type: FieldType| Token::get_field_name(&location(Some(field(field_type))));
    assert_eq!(named(FieldType::Text("a".to_string())), Some("a".to_string()));
    assert_eq!(named(FieldType::Date("b".to_string())), Some("b".to_string()));
    assert_eq!(named(FieldType::Time("c".to_string())), Some("c".to_string()));
    assert_eq!(named(FieldType::Money("d".to_string())), Some("d".to_string()));
    assert_eq!(named(FieldType::Percent("e".to_string())), Some("e".to_string()));
    assert_eq!(named(FieldType::Number("f".to_string())), Some("f".to_string()));
    assert_eq!(named(FieldType::NumberOrMoney("g".to_string())), Some("g".to_string()));
    assert_eq!(named(FieldType::Group(vec!["h".to_string()])), None);
    assert_eq!(Token::get_field_name(&location(Some(TokenType::Text("a".to_string())))), None);
    assert_eq!(Token::get_field_name(&location(None)), None);
}

#[test]
fn locations_compare_with_tokens_and_with_each_other() {
    let six = location(Some(TokenType::Percent(number(6.0))));
    assert!(six == element(TokenType::Percent(number(6.0))));
    assert!(six == element(field(FieldType::Percent("p".to_string()))));
    assert!(six != element(TokenType::Number(number(6.0))));
    assert!(six == location(Some(TokenType::Percent(number(6.0)))));
    assert!(six != location(None));
    assert!(location(None) != location(None));
    let mut removed = location(Some(TokenType::Percent(number(6.0))));
    removed.status = TokenLocationStatus::Removed;
    assert!(removed != six);
    assert!(six != removed);
    assert!(removed != element(TokenType::Percent(number(6.0))));
}

#[test]
fn update_data_replaces_the_value_only() {
    let mut x = VariableInfo {
        index: 3,
        name: "x".to_string(),
        tokens: vec![word("x")],
        data: Rc::new(BramaAstType::Number(number(10.0))),
    };
    x.update_data(Rc::new(BramaAstType::Number(number(20.0))));
    assert!(*x.data == BramaAstType::Number(number(20.0)));
    assert_eq!(x.index, 3);
    assert_eq!(x.to_string(), "x");
    assert_eq!(x.tokens.len(), 1);
}

#[test]
fn char_classes() {
    assert!(CharTraits::is_new_line(&'\n'));
    assert!(!CharTraits::is_new_line(&'\r'));
    assert!(CharTraits::is_whitespace(&' '));
    assert!(CharTraits::is_whitespace(&'\r'));
    assert!(CharTraits::is_whitespace(&'\t'));
    assert!(!CharTraits::is_whitespace(&'\n'));
    assert!(!CharTraits::is_whitespace(&'a'));
}

#[test]
fn plain_data_types() {
    let lira = Money {
        code: "TRY".to_string(),
        symbol: "₺".to_string(),
        thousands_separator: ".".to_string(),
        decimal_separator: ",".to_string(),
        symbol_on_left: true,
        space_between_amount_and_symbol: false,
        decimal_digits: 2,
    };
    assert!(lira == lira.clone());
    let mut other = lira.clone();
    other.decimal_digits = 3;
    assert!(lira != other);
    assert!(BramaNumberSystem::Decimal == BramaNumberSystem::Decimal);
    assert!(BramaNumberSystem::Binary != BramaNumberSystem::Octal);
    let backup = TokinizerBackup { index: 1, indexer: 2, column: 3 };
    assert_eq!((backup.index, backup.indexer, backup.column), (1, 2, 3));
}
