use smartcalc::alias::AliasTable;
use smartcalc::binary64::Binary64;
use smartcalc::compiler::interpreter::{
    combine, execute, operation, unary_operation, EvaluationError,
};
use smartcalc::compiler::item::RateTable;
use smartcalc::compiler::number::{
    DataItem, MoneyItem, NumberItem, NumberType, OperationType, PercentItem, TimeItem, UnaryType,
};
use smartcalc::config::SmartCalcConfig;
use smartcalc::formula::Formula;
use smartcalc::syntax::parse;
use smartcalc::tokinizer::{TokenLocation, TokenLocationStatus, Tokinizer};
use smartcalc::types::{BramaAstType, ClockTime, Token, TokenType, VariableInfo};
use smartcalc::variable::Storage;
use smartcalc::worker::executer::WorkerExecuter;
use smartcalc::worker::rule::RuleLanguage;
use std::rc::Rc;

fn value_of(formula: &Formula) -> f64 {
    match formula {
        Formula::Value(value) => f64::from_bits(value.to_bits()),
        Formula::Whole(value) => *value as f64,
        Formula::Decimal { negative, mantissa, scale } => {
            let sign = if *negative { "-" } else { "" };
            format!("{}{}e-{}", sign, mantissa, scale).parse().unwrap()
        }
        Formula::Sum(left, right) => value_of(left) + value_of(right),
        Formula::Difference(left, right) => value_of(left) - value_of(right),
        Formula::Product(left, right) => value_of(left) * value_of(right),
        Formula::Quotient(left, right) => value_of(left) / value_of(right),
    }
}

fn evaluate(formula: Formula) -> Binary64 {
    Binary64::from_bits(value_of(&formula).to_bits())
}

fn number(value: f64) -> Binary64 {
    Binary64::from_bits(value.to_bits())
}

fn num(value: f64) -> BramaAstType {
    BramaAstType::Number(number(value))
}

fn percent(value: f64) -> BramaAstType {
    BramaAstType::Percent(number(value))
}

fn money(value: f64, currency: &str) -> BramaAstType {
    BramaAstType::Money(number(value), currency.to_string())
}

fn binary(left: BramaAstType, operator: char, right: BramaAstType) -> BramaAstType {
    BramaAstType::Binary { left: Rc::new(left), operator, right: Rc::new(right) }
}

fn rates() -> RateTable {
    RateTable {
        rates: vec![
            ("usd".to_string(), number(1.0)),
            ("eur".to_string(), number(0.8345155637)),
            ("try".to_string(), number(7.0727697572)),
        ],
    }
}

fn run(tree: &BramaAstType) -> Result<TokenType, EvaluationError> {
    execute(tree, &rates(), &evaluate).map(|item| item.as_token_type())
}

fn location(start: usize, text: &str, token_type: TokenType) -> TokenLocation {
    TokenLocation {
        start,
        end: start + text.len(),
        token_type: Some(token_type),
        original_text: text.to_string(),
        status: TokenLocationStatus::Active,
    }
}

struct Session {
    executer: WorkerExecuter,
    storage: Storage,
}

impl Session {
    fn new() -> Session {
        Session {
            executer: WorkerExecuter::new(
                AliasTable { literals: Vec::new(), patterns: Vec::new() },
                RuleLanguage { languages: Vec::new() },
            ),
            storage: Storage::new(),
        }
    }

    fn parse(&mut self, data: &str, token_locations: Vec<TokenLocation>) -> BramaAstType {
        let mut tokinizer = Tokinizer::new(data.to_string());
        tokinizer.token_locations = token_locations;
        let config = SmartCalcConfig {
            thousand_separator: ',',
            decimal_seperator: '.',
            currency_alias: Vec::new(),
            currency_rates: rates(),
            word_groups: Vec::new(),
        };
        self.executer.process("en", &mut tokinizer, &self.storage, &config, &evaluate);
        parse(&tokinizer.token_locations, &self.storage).unwrap()
    }

    fn define(&mut self, name: &str, value: f64) -> TokenType {
        let tree = self.parse(
            &format!("{} = {}", name, value),
            vec![
                location(0, name, TokenType::Text(name.to_string())),
                location(name.len() + 1, "=", TokenType::Operator('=')),
                location(name.len() + 3, &value.to_string(), TokenType::Number(number(value))),
            ],
        );
        let index = match &tree {
            BramaAstType::Assignment { index, .. } => *index,
            other => panic!("not an assignment: {:?}", other),
        };
        let item = execute(&tree, &rates(), &evaluate).unwrap();
        self.storage.assign(Rc::new(VariableInfo {
            index,
            name: name.to_string(),
            tokens: vec![Token { start: 0, end: 0, token: TokenType::Text(name.to_string()) }],
            data: Rc::new(item.to_leaf()),
        }));
        item.as_token_type()
    }

    fn plus_five(&mut self, name: &str) -> BramaAstType {
        self.parse(
            &format!("{} + 5", name),
            vec![
                location(0, name, TokenType::Text(name.to_string())),
                location(name.len() + 1, "+", TokenType::Operator('+')),
                location(name.len() + 3, "5", TokenType::Number(number(5.0))),
            ],
        )
    }
}

#[test]
fn assignment_then_use_in_a_later_line() {
    let mut session = Session::new();
    assert_eq!(session.define("x", 10.0), TokenType::Number(number(10.0)));
    assert_eq!(session.storage.variables.len(), 1);
    let first_use = session.plus_five("x");
    assert_eq!(run(&first_use), Ok(TokenType::Number(number(15.0))));

    assert_eq!(session.define("x", 20.0), TokenType::Number(number(20.0)));
    assert_eq!(session.storage.variables.len(), 1);
    let second_use = session.plus_five("x");
    assert_eq!(run(&second_use), Ok(TokenType::Number(number(25.0))));
    // The line parsed before the second assignment keeps its value.
    assert_eq!(run(&first_use), Ok(TokenType::Number(number(15.0))));

    assert_eq!(session.define("y", 1.0), TokenType::Number(number(1.0)));
    assert_eq!(session.storage.variables.len(), 2);
    assert_eq!(session.storage.variables[1].index, 1);
    assert_eq!(run(&session.plus_five("y")), Ok(TokenType::Number(number(6.0))));
    assert_eq!(run(&session.plus_five("x")), Ok(TokenType::Number(number(25.0))));
}

#[test]
fn number_and_percent() {
    assert_eq!(run(&binary(num(120.0), '+', percent(30.0))), Ok(TokenType::Number(number(156.0))));
    assert_eq!(run(&binary(num(120.0), '-', percent(30.0))), Ok(TokenType::Number(number(84.0))));
    assert_eq!(run(&binary(percent(10.0), '+', num(50.0))), Ok(TokenType::Number(number(55.0))));
    assert_eq!(run(&binary(percent(10.0), '-', num(50.0))), Ok(TokenType::Number(number(-45.0))));
    assert_eq!(
        run(&binary(percent(10.0), '+', percent(5.0))),
        Err(EvaluationError::IncompatibleOperands)
    );
}

#[test]
fn arithmetic_follows_the_tree() {
    let tree = binary(num(1.0), '+', binary(num(2.0), '*', num(3.0)));
    assert_eq!(run(&tree), Ok(TokenType::Number(number(7.0))));
    let tree = binary(binary(num(1.0), '+', num(2.0)), '*', num(3.0));
    assert_eq!(run(&tree), Ok(TokenType::Number(number(9.0))));
    let tree = binary(binary(num(8.0), '/', num(4.0)), '/', num(2.0));
    assert_eq!(run(&tree), Ok(TokenType::Number(number(1.0))));
    let tree = binary(num(0.1), '+', num(0.2));
    assert_eq!(run(&tree), Ok(TokenType::Number(number(0.1 + 0.2))));
    assert_eq!(run(&binary(num(1.0), '/', num(0.0))), Ok(TokenType::Number(number(0.0))));
    assert_eq!(run(&num(3.5)), Ok(TokenType::Number(number(3.5))));
    assert_eq!(run(&percent(3.5)), Ok(TokenType::Percent(number(3.5))));
}

#[test]
fn money_of_one_currency() {
    assert_eq!(
        run(&binary(money(10.0, "usd"), '+', money(5.0, "usd"))),
        Ok(TokenType::Money(number(15.0), "usd".to_string()))
    );
    assert_eq!(
        run(&binary(money(10.0, "xyz"), '-', money(5.0, "xyz"))),
        Ok(TokenType::Money(number(5.0), "xyz".to_string()))
    );
    assert_eq!(
        run(&binary(money(10.0, "usd"), '/', money(0.0, "usd"))),
        Ok(TokenType::Money(number(0.0), "usd".to_string()))
    );
}

#[test]
fn money_is_converted_into_the_left_currency() {
    let eur = 0.8345155637;
    let lira = 7.0727697572;
    assert_eq!(
        run(&binary(money(10.0, "usd"), '+', money(5.0, "eur"))),
        Ok(TokenType::Money(number(10.0 + (5.0 * 1.0) / eur), "usd".to_string()))
    );
    assert_eq!(
        run(&binary(money(100.0, "try"), '-', money(5.0, "eur"))),
        Ok(TokenType::Money(number(100.0 - (5.0 * lira) / eur), "try".to_string()))
    );
    assert_eq!(
        run(&binary(money(10.0, "usd"), '+', money(5.0, "xyz"))),
        Err(EvaluationError::IncompatibleOperands)
    );
    assert_eq!(
        run(&binary(money(10.0, "xyz"), '+', money(5.0, "usd"))),
        Err(EvaluationError::IncompatibleOperands)
    );
    assert_eq!(rates().get(&"eur".to_string()), Some(number(eur)));
    assert_eq!(rates().get(&"EUR".to_string()), None);
}

#[test]
fn operands_that_do_not_go_together() {
    assert_eq!(
        run(&binary(num(1.0), '+', money(5.0, "usd"))),
        Err(EvaluationError::IncompatibleOperands)
    );
    assert_eq!(
        run(&binary(money(5.0, "usd"), '*', num(2.0))),
        Err(EvaluationError::IncompatibleOperands)
    );
    assert_eq!(
        run(&binary(money(5.0, "usd"), '+', percent(2.0))),
        Err(EvaluationError::IncompatibleOperands)
    );
}

#[test]
fn nodes_without_a_value() {
    assert_eq!(run(&BramaAstType::Symbol("x".to_string())), Err(EvaluationError::Unresolved));
    assert_eq!(run(&BramaAstType::Nothing), Err(EvaluationError::Unresolved));
    assert_eq!(
        run(&binary(num(1.0), '+', BramaAstType::Symbol("x".to_string()))),
        Err(EvaluationError::Unresolved)
    );
    assert_eq!(
        run(&binary(BramaAstType::Nothing, '+', num(1.0))),
        Err(EvaluationError::Unresolved)
    );
    let unset = Rc::new(VariableInfo {
        index: 0,
        name: "x".to_string(),
        tokens: Vec::new(),
        data: Rc::new(binary(num(1.0), '+', num(2.0))),
    });
    assert_eq!(run(&BramaAstType::Variable(unset)), Err(EvaluationError::Unresolved));
    assert_eq!(run(&binary(num(1.0), '^', num(2.0))), Err(EvaluationError::UnknownOperator));
    assert_eq!(
        run(&binary(BramaAstType::Nothing, '^', num(2.0))),
        Err(EvaluationError::UnknownOperator)
    );
    assert_eq!(
        run(&BramaAstType::PrefixUnary('*', Rc::new(num(2.0)))),
        Err(EvaluationError::UnknownOperator)
    );
}

#[test]
fn signs() {
    let signed = |operator: char, operand: BramaAstType| {
        run(&BramaAstType::PrefixUnary(operator, Rc::new(operand)))
    };
    assert_eq!(signed('-', num(2.0)), Ok(TokenType::Number(number(-2.0))));
    assert_eq!(signed('+', num(2.0)), Ok(TokenType::Number(number(2.0))));
    assert_eq!(signed('-', percent(2.0)), Ok(TokenType::Percent(number(-2.0))));
    assert_eq!(signed('+', percent(2.0)), Ok(TokenType::Percent(number(2.0))));
    assert_eq!(signed('-', money(2.0, "usd")), Ok(TokenType::Money(number(-2.0), "usd".to_string())));
    assert_eq!(signed('+', money(2.0, "usd")), Ok(TokenType::Money(number(2.0), "usd".to_string())));
    assert_eq!(
        signed('-', BramaAstType::PrefixUnary('-', Rc::new(num(2.0)))),
        Ok(TokenType::Number(number(2.0)))
    );
    assert_eq!(signed('-', BramaAstType::Nothing), Err(EvaluationError::Unresolved));
}

#[test]
fn assignment_has_the_value_of_its_expression() {
    let tree = BramaAstType::Assignment {
        index: 4,
        expression: Rc::new(binary(num(2.0), '*', num(21.0))),
    };
    assert_eq!(run(&tree), Ok(TokenType::Number(number(42.0))));
}

#[test]
fn left_operand_is_asked_first() {
    let ten = DataItem::Number(NumberItem(number(10.0), NumberType::Hexadecimal));
    let four = DataItem::Number(NumberItem(number(4.0), NumberType::Octal));
    let share = DataItem::Percent(PercentItem(number(50.0)));
    let result = combine(&ten, &four, OperationType::Sub, &rates(), &evaluate).unwrap();
    assert!(matches!(result, DataItem::Number(NumberItem(value, NumberType::Hexadecimal)) if value.to_bits() == 6.0f64.to_bits()));
    let result = combine(&share, &four, OperationType::Sub, &rates(), &evaluate).unwrap();
    assert!(matches!(result, DataItem::Number(NumberItem(value, NumberType::Octal)) if value.to_bits() == (-2.0f64).to_bits()));
    let result = combine(&four, &share, OperationType::Sub, &rates(), &evaluate).unwrap();
    assert!(matches!(result, DataItem::Number(NumberItem(value, NumberType::Octal)) if value.to_bits() == 2.0f64.to_bits()));
    let price = DataItem::Money(MoneyItem(number(1.0), "usd".to_string()));
    assert!(share.calculate(true, &four, OperationType::Add, &rates(), &evaluate).is_none());
    assert!(price.calculate(true, &four, OperationType::Add, &rates(), &evaluate).is_none());
    assert_eq!(share.unary(UnaryType::Plus, &evaluate).as_token_type(), TokenType::Percent(number(50.0)));
}

#[test]
fn operators_by_character() {
    assert_eq!(operation('+'), Some(OperationType::Add));
    assert_eq!(operation('-'), Some(OperationType::Sub));
    assert_eq!(operation('*'), Some(OperationType::Mul));
    assert_eq!(operation('/'), Some(OperationType::Div));
    assert_eq!(operation('='), None);
    assert_eq!(unary_operation('+'), Some(UnaryType::Plus));
    assert_eq!(unary_operation('-'), Some(UnaryType::Minus));
    assert_eq!(unary_operation('*'), None);
}

#[test]
fn items_and_leaves() {
    let leaves = vec![num(1.5), percent(2.5), money(3.5, "eur")];
    for leaf in leaves {
        let item = DataItem::from_leaf(&leaf).unwrap();
        assert_eq!(item.to_leaf(), leaf);
    }
    assert!(DataItem::from_leaf(&BramaAstType::Symbol("x".to_string())).is_none());
    assert!(DataItem::from_leaf(&binary(num(1.0), '+', num(2.0))).is_none());
}

#[test]
fn storage_assigns_by_index() {
    let variable = |index: usize, value: f64| {
        Rc::new(VariableInfo {
            index,
            name: "v".to_string(),
            tokens: Vec::new(),
            data: Rc::new(num(value)),
        })
    };
    let mut storage = Storage::new();
    storage.assign(variable(0, 1.0));
    storage.assign(variable(1, 2.0));
    storage.assign(variable(0, 3.0));
    storage.assign(variable(7, 4.0));
    let values: Vec<BramaAstType> =
        storage.variables.iter().map(|variable| (*variable.data).clone()).collect();
    assert_eq!(values, vec![num(3.0), num(2.0), num(4.0)]);
}

#[test]
fn time_of_day_is_a_result_that_calculates_with_nothing() {
    let noon = ClockTime { secs: 43_200, frac: 0 };
    assert_eq!(run(&BramaAstType::Time(noon)), Ok(TokenType::Time(noon)));
    assert_eq!(
        run(&BramaAstType::PrefixUnary('-', Rc::new(BramaAstType::Time(noon)))),
        Ok(TokenType::Time(noon))
    );
    assert_eq!(
        run(&binary(BramaAstType::Time(noon), '+', num(1.0))),
        Err(EvaluationError::IncompatibleOperands)
    );
    assert_eq!(
        run(&binary(num(1.0), '+', BramaAstType::Time(noon))),
        Err(EvaluationError::IncompatibleOperands)
    );
    let item = DataItem::from_leaf(&BramaAstType::Time(noon)).unwrap();
    assert!(matches!(item, DataItem::Time(TimeItem(time)) if time == noon));
    assert_eq!(item.to_leaf(), BramaAstType::Time(noon));
    assert!(item
        .calculate(true, &DataItem::Time(TimeItem(noon)), OperationType::Add, &rates(), &evaluate)
        .is_none());
}
