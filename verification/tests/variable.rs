use smartcalc::binary64::Binary64;
use smartcalc::compiler::number::{DataItem, NumberItem, NumberType, OperationType};
use smartcalc::formula::Formula;
use smartcalc::tokinizer::{
    TokenLocation, TokenLocationStatus, Tokinizer, UiToken, UiTokenType,
};
use smartcalc::types::{BramaAstType, FieldType, Token, TokenType, VariableInfo};
use smartcalc::variable::{find_assignment, Storage, MAX_SUBSTITUTIONS};
use std::rc::Rc;

fn value_of(formula: &Formula) -> f64 {
    match formula {
        Formula::Value(value) => f64::from_bits(value.to_bits()),
        Formula::Whole(value) => *value as f64,
        Formula::Decimal { negative, mantissa, scale } => {
            let sign = if *negative { "-" } else { "" };
            format!("{}{}e-{}", sign, mantissa, scale).parse().unwrap()
        }
        Formula::Sum(left, right) => value_of(left) + value_of(right),
        Formula::Difference(left, right) => value_of(left) - value_of(right),
        Formula::Product(left, right) => value_of(left) * value_of(right),
        Formula::Quotient(left, right) => value_of(left) / value_of(right),
    }
}

fn evaluate(formula: Formula) -> Binary64 {
    Binary64::from_bits(value_of(&formula).to_bits())
}

fn number(value: f64) -> Binary64 {
    Binary64::from_bits(value.to_bits())
}

fn location(start: usize, text: &str, token_type: TokenType) -> TokenLocation {
    TokenLocation {
        start,
        end: start + text.len(),
        token_type: Some(token_type),
        original_text: text.to_string(),
        status: TokenLocationStatus::Active,
    }
}

fn text(start: usize, word: &str) -> TokenLocation {
    location(start, word, TokenType::Text(word.to_string()))
}

fn word(text: &str) -> Token {
    Token { start: 0, end: 0, token: TokenType::Text(text.to_string()) }
}

fn variable(index: usize, name: &[&str], value: f64) -> Rc<VariableInfo> {
    Rc::new(VariableInfo {
        index,
        name: name.join(" "),
        tokens: name.iter().map(|part| word(part)).collect(),
        data: Rc::new(BramaAstType::Number(number(value))),
    })
}

fn line(data: &str, token_locations: Vec<TokenLocation>) -> Tokinizer {
    let mut tokinizer = Tokinizer::new(data.to_string());
    tokinizer.token_locations = token_locations;
    tokinizer
}

fn referenced(location: &TokenLocation) -> Rc<VariableInfo> {
    match &location.token_type {
        Some(TokenType::Variable(variable)) => variable.clone(),
        other => panic!("not a variable: {:?}", other),
    }
}

fn number_of(node: &BramaAstType) -> f64 {
    match node {
        BramaAstType::Number(value) => f64::from_bits(value.to_bits()),
        other => panic!("not a number: {:?}", other),
    }
}

#[test]
fn variable_use_is_replaced_by_a_reference() {
    let storage = Storage { variables: vec![variable(0, &["x"], 10.0)] };
    let mut tokinizer = line(
        "x + 5",
        vec![
            text(0, "x"),
            location(2, "+", TokenType::Operator('+')),
            location(4, "5", TokenType::Number(number(5.0))),
        ],
    );
    Token::update_for_variable(&mut tokinizer, &storage);
    assert_eq!(tokinizer.token_locations.len(), 3);
    let x = &tokinizer.token_locations[0];
    assert!(Rc::ptr_eq(&referenced(x), &storage.variables[0]));
    assert_eq!((x.start, x.end), (0, 1));
    assert_eq!(x.original_text, "x");
    assert_eq!(x.status, TokenLocationStatus::Active);
    assert_eq!(tokinizer.token_locations[1].token_type, Some(TokenType::Operator('+')));
    assert_eq!(
        tokinizer.ui_tokens,
        vec![UiToken { start: 0, end: 1, ui_type: UiTokenType::VariableUse }]
    );
    assert_eq!(tokinizer.data, "x + 5");
}

#[test]
fn variable_round_trip() {
    // x = 10, then x + 5, then x = 20, then x + 5 again.
    let mut storage = Storage { variables: vec![variable(0, &["x"], 10.0)] };
    let use_of_x = || {
        line(
            "x + 5",
            vec![
                text(0, "x"),
                location(2, "+", TokenType::Operator('+')),
                location(4, "5", TokenType::Number(number(5.0))),
            ],
        )
    };
    let sum = |tokinizer: &Tokinizer| {
        let x = referenced(&tokinizer.token_locations[0]);
        let left = NumberItem(number(number_of(&x.data)), NumberType::Decimal);
        let right = match &tokinizer.token_locations[2].token_type {
            Some(TokenType::Number(value)) => NumberItem(*value, NumberType::Decimal),
            other => panic!("not a number: {:?}", other),
        };
        left.calculate(true, &DataItem::Number(right), OperationType::Add, &evaluate).unwrap()
    };
    let mut first = use_of_x();
    Token::update_for_variable(&mut first, &storage);
    assert_eq!(sum(&first).as_token_type(), TokenType::Number(number(15.0)));

    let mut redefined = VariableInfo {
        index: 0,
        name: "x".to_string(),
        tokens: vec![word("x")],
        data: Rc::new(BramaAstType::Number(number(10.0))),
    };
    redefined.update_data(Rc::new(BramaAstType::Number(number(20.0))));
    storage.variables[0] = Rc::new(redefined);
    let mut second = use_of_x();
    Token::update_for_variable(&mut second, &storage);
    assert_eq!(sum(&second).as_token_type(), TokenType::Number(number(25.0)));
    assert_eq!(sum(&first).as_token_type(), TokenType::Number(number(15.0)));
}

#[test]
fn name_being_defined_is_left_alone() {
    let storage = Storage { variables: vec![variable(0, &["x"], 10.0)] };
    let mut tokinizer = line(
        "x = x + 1",
        vec![
            text(0, "x"),
            location(2, "=", TokenType::Operator('=')),
            text(4, "x"),
            location(6, "+", TokenType::Operator('+')),
            location(8, "1", TokenType::Number(number(1.0))),
        ],
    );
    assert_eq!(find_assignment(&tokinizer.token_locations), Some(1));
    Token::update_for_variable(&mut tokinizer, &storage);
    assert_eq!(tokinizer.token_locations.len(), 5);
    assert_eq!(
        tokinizer.token_locations[0].token_type,
        Some(TokenType::Text("x".to_string()))
    );
    assert!(Rc::ptr_eq(&referenced(&tokinizer.token_locations[2]), &storage.variables[0]));
    assert_eq!(
        tokinizer.ui_tokens,
        vec![
            UiToken { start: 0, end: 1, ui_type: UiTokenType::VariableDefination },
            UiToken { start: 4, end: 5, ui_type: UiTokenType::VariableUse },
        ]
    );
}

#[test]
fn assignment_at_the_front_defines_nothing() {
    let storage = Storage { variables: vec![variable(0, &["x"], 10.0)] };
    let mut tokinizer =
        line("= x", vec![location(0, "=", TokenType::Operator('=')), text(2, "x")]);
    assert_eq!(find_assignment(&tokinizer.token_locations), Some(0));
    Token::update_for_variable(&mut tokinizer, &storage);
    assert!(Rc::ptr_eq(&referenced(&tokinizer.token_locations[1]), &storage.variables[0]));
    assert_eq!(
        tokinizer.ui_tokens,
        vec![UiToken { start: 2, end: 3, ui_type: UiTokenType::VariableUse }]
    );
}

#[test]
fn earliest_name_wins_and_then_the_longest() {
    let storage = Storage {
        variables: vec![
            variable(0, &["rate"], 1.0),
            variable(1, &["tax", "rate"], 2.0),
            variable(2, &["tax"], 3.0),
            variable(3, &["tax", "rate"], 4.0),
        ],
    };
    let mut tokinizer = line(
        "pay tax rate rate",
        vec![text(0, "pay"), text(4, "tax"), text(8, "rate"), text(13, "rate")],
    );
    Token::update_for_variable(&mut tokinizer, &storage);
    assert_eq!(tokinizer.token_locations.len(), 3);
    let joined = &tokinizer.token_locations[1];
    assert!(Rc::ptr_eq(&referenced(joined), &storage.variables[1]));
    assert_eq!((joined.start, joined.end), (4, 12));
    assert_eq!(joined.original_text, "taxrate");
    assert!(Rc::ptr_eq(&referenced(&tokinizer.token_locations[2]), &storage.variables[0]));
    assert_eq!(
        tokinizer.ui_tokens,
        vec![
            UiToken { start: 4, end: 12, ui_type: UiTokenType::VariableUse },
            UiToken { start: 13, end: 17, ui_type: UiTokenType::VariableUse },
        ]
    );
}

#[test]
fn resolving_again_changes_nothing() {
    let storage =
        Storage { variables: vec![variable(0, &["x"], 10.0), variable(1, &["y", "z"], 1.0)] };
    let mut tokinizer = line("x y z x", vec![text(0, "x"), text(2, "y"), text(4, "z"), text(6, "x")]);
    Token::update_for_variable(&mut tokinizer, &storage);
    let once: Vec<(usize, usize, String)> = tokinizer
        .token_locations
        .iter()
        .map(|token| (token.start, token.end, token.original_text.clone()))
        .collect();
    assert_eq!(once.len(), 3);
    let notes = tokinizer.ui_tokens.len();
    Token::update_for_variable(&mut tokinizer, &storage);
    let twice: Vec<(usize, usize, String)> = tokinizer
        .token_locations
        .iter()
        .map(|token| (token.start, token.end, token.original_text.clone()))
        .collect();
    assert_eq!(once, twice);
    assert_eq!(tokinizer.ui_tokens.len(), notes);
}

#[test]
fn variable_without_a_name_is_never_found() {
    let storage = Storage { variables: vec![variable(0, &[], 10.0)] };
    let mut tokinizer = line("x", vec![text(0, "x")]);
    Token::update_for_variable(&mut tokinizer, &storage);
    assert_eq!(tokinizer.token_locations.len(), 1);
    assert_eq!(
        tokinizer.token_locations[0].token_type,
        Some(TokenType::Text("x".to_string()))
    );
    assert!(tokinizer.ui_tokens.is_empty());
}

#[test]
fn substitutions_are_capped() {
    // A name that a placeholder spells is met by every text, the reference
    // that replaces it included only if it is a text; here every text is
    // replaced once and nothing is left to replace.
    let any_text = Rc::new(VariableInfo {
        index: 0,
        name: "any".to_string(),
        tokens: vec![Token {
            start: 0,
            end: 0,
            token: TokenType::Field(Rc::new(FieldType::Text("any".to_string()))),
        }],
        data: Rc::new(BramaAstType::Nothing),
    });
    let storage = Storage { variables: vec![any_text] };
    let count = 20;
    let mut tokinizer =
        line("", (0..count).map(|index| text(index * 2, "a")).collect::<Vec<TokenLocation>>());
    Token::update_for_variable(&mut tokinizer, &storage);
    assert_eq!(tokinizer.token_locations.len(), count);
    assert_eq!(tokinizer.ui_tokens.len(), count);
    assert!(count < MAX_SUBSTITUTIONS);
}

#[test]
fn removed_assignment_operator_is_nothing_to_the_search() {
    let storage = Storage { variables: vec![variable(0, &["x"], 10.0)] };
    let mut removed = location(2, "=", TokenType::Operator('='));
    removed.status = TokenLocationStatus::Removed;
    let tokens = vec![text(0, "x"), removed, text(4, "x")];
    assert_eq!(find_assignment(&tokens), None);
    let mut tokinizer = line("x = x", tokens);
    Token::update_for_variable(&mut tokinizer, &storage);
    // Both names are uses: no definition is noted, and the first name is replaced too.
    assert!(matches!(tokinizer.token_locations[0].token_type, Some(TokenType::Variable(_))));
    assert!(matches!(tokinizer.token_locations[2].token_type, Some(TokenType::Variable(_))));
    assert!(tokinizer.ui_tokens.iter().all(|note| note.ui_type == UiTokenType::VariableUse));
    assert_eq!(tokinizer.ui_tokens.len(), 2);

    let active = vec![text(0, "x"), location(2, "=", TokenType::Operator('=')), text(4, "x")];
    assert_eq!(find_assignment(&active), Some(1));
}

#[test]
fn defining_stores_a_variable_under_its_name() {
    let mut storage = Storage::new();
    storage.define(0, "x".to_string(), BramaAstType::Number(number(10.0)));
    storage.define(1, "rate".to_string(), BramaAstType::Percent(number(6.0)));
    assert_eq!(storage.variables.len(), 2);
    assert_eq!(storage.variables[0].index, 0);
    assert_eq!(storage.variables[0].name, "x");
    assert_eq!(storage.variables[0].tokens.len(), 1);
    assert_eq!(storage.variables[0].tokens[0].token, TokenType::Text("x".to_string()));
    assert_eq!(*storage.variables[0].data, BramaAstType::Number(number(10.0)));
    assert_eq!(*storage.variables[1].data, BramaAstType::Percent(number(6.0)));

    // A use that was resolved before keeps the value it referred to.
    let mut earlier = line("x", vec![text(0, "x")]);
    Token::update_for_variable(&mut earlier, &storage);
    let kept = referenced(&earlier.token_locations[0]);

    storage.define(0, "x".to_string(), BramaAstType::Number(number(20.0)));
    assert_eq!(storage.variables.len(), 2);
    assert_eq!(number_of(&storage.variables[0].data), 20.0);
    assert_eq!(storage.variables[1].name, "rate");
    assert_eq!(number_of(&kept.data), 10.0);

    // A line resolved from now on refers to the new value, by reference.
    let mut later = line("x", vec![text(0, "x")]);
    Token::update_for_variable(&mut later, &storage);
    let found = referenced(&later.token_locations[0]);
    assert!(Rc::ptr_eq(&found, &storage.variables[0]));
    assert_eq!(number_of(&found.data), 20.0);

    // A place beyond the end is the next free place.
    storage.define(9, "y".to_string(), BramaAstType::Number(number(1.0)));
    assert_eq!(storage.variables.len(), 3);
    assert_eq!(storage.variables[2].name, "y");
    assert_eq!(storage.variables[2].index, 9);
}
