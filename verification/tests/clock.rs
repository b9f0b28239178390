use chrono::Timelike;
use smartcalc::binary64::Binary64;
use smartcalc::clock::{advance, whole_of};
use smartcalc::compiler::item::RateTable;
use smartcalc::config::SmartCalcConfig;
use smartcalc::formula::Formula;
use smartcalc::tokinizer::{TokenLocation, TokenLocationStatus};
use smartcalc::types::{BramaAstType, ClockTime, FieldType, Token, TokenType, VariableInfo};
use smartcalc::worker::engine::apply_rules;
use smartcalc::worker::rule::{rule_function, RuleFunction, RuleLanguage};
use smartcalc::worker::rules::date_time_rules::{hour_add, hour_add_request};
use smartcalc::worker::tools::{get_time, RuleFields, Unit};
use std::rc::Rc;

fn unusable(_formula: Formula) -> Binary64 {
    Binary64::from_bits(f64::NAN.to_bits())
}

fn number(value: f64) -> Binary64 {
    Binary64::from_bits(value.to_bits())
}

fn clock(hour: u32, minute: u32) -> ClockTime {
    ClockTime { secs: hour * 3600 + minute * 60, frac: 0 }
}

fn location(start: usize, text: &str, token_type: TokenType) -> TokenLocation {
    TokenLocation {
        start,
        end: start + text.len(),
        token_type: Some(token_type),
        original_text: text.to_string(),
        status: TokenLocationStatus::Active,
    }
}

fn element(token: TokenType) -> Token {
    Token { start: 0, end: 0, token }
}

fn english() -> RuleLanguage {
    let hours = vec!["hour".to_string(), "hours".to_string()];
    RuleLanguage {
        languages: vec![(
            "en".to_string(),
            vec![(
                rule_function("hour_add").unwrap(),
                vec![vec![
                    element(TokenType::Field(Rc::new(FieldType::Time("time".to_string())))),
                    element(TokenType::Text("add".to_string())),
                    element(TokenType::Field(Rc::new(FieldType::Number("hour".to_string())))),
                    element(TokenType::Field(Rc::new(FieldType::Group(hours)))),
                ]],
            )],
        )],
    }
}

fn config() -> SmartCalcConfig {
    SmartCalcConfig {
        thousand_separator: ',',
        decimal_seperator: '.',
        currency_alias: Vec::new(),
        currency_rates: RateTable { rates: Vec::new() },
        word_groups: Vec::new(),
    }
}

#[test]
fn whole_part_rounds_towards_zero() {
    let values = [
        0.0,
        -0.0,
        0.25,
        0.999_999_999,
        1.0,
        1.5,
        -1.5,
        2.0,
        -2.75,
        23.999,
        24.0,
        1_000_000.75,
        -86_400.5,
        4_503_599_627_370_496.0,
        4_503_599_627_370_497.0,
        9_007_199_254_740_992.0,
        -9_007_199_254_740_993.0,
        4_611_686_018_427_387_904.0,
        9_223_372_036_854_774_784.0,
        -9_223_372_036_854_774_784.0,
        f64::MIN_POSITIVE,
        5e-324,
    ];
    for value in values {
        assert_eq!(whole_of(number(value)), value as i64, "{}", value);
    }
    assert_eq!(whole_of(number(1.5)), 1);
    assert_eq!(whole_of(number(-1.5)), -1);
    assert_eq!(whole_of(number(1024.0)), 1024);
}

#[test]
fn whole_part_beyond_the_integers() {
    assert_eq!(whole_of(number(9_223_372_036_854_775_808.0)), i64::MAX);
    assert_eq!(whole_of(number(-9_223_372_036_854_775_808.0)), i64::MIN);
    assert_eq!(whole_of(number(1e300)), i64::MAX);
    assert_eq!(whole_of(number(-1e300)), i64::MIN);
    assert_eq!(whole_of(number(f64::INFINITY)), i64::MAX);
    assert_eq!(whole_of(number(f64::NEG_INFINITY)), i64::MIN);
    assert_eq!(whole_of(number(f64::NAN)), 0);
    assert_eq!(whole_of(Binary64::from_bits(0xfff8_0000_0000_0001)), 0);
}

#[test]
fn the_clock_goes_round_at_midnight() {
    let morning = ClockTime { secs: 10 * 3600 + 30 * 60 + 5, frac: 250 };
    assert_eq!(advance(morning, 0), morning);
    assert_eq!(advance(morning, 3), ClockTime { secs: 13 * 3600 + 30 * 60 + 5, frac: 250 });
    assert_eq!(advance(morning, 15), ClockTime { secs: 3600 + 30 * 60 + 5, frac: 250 });
    assert_eq!(advance(morning, -11), ClockTime { secs: 23 * 3600 + 30 * 60 + 5, frac: 250 });
    assert_eq!(advance(morning, -1), ClockTime { secs: 9 * 3600 + 30 * 60 + 5, frac: 250 });
    assert_eq!(advance(morning, 24), morning);
    assert_eq!(advance(morning, -24), morning);
    assert_eq!(advance(morning, -48), morning);
    assert_eq!(advance(morning, 49), ClockTime { secs: 11 * 3600 + 30 * 60 + 5, frac: 250 });
    assert_eq!(advance(clock(0, 0), i64::MAX), clock(7, 0));
    assert_eq!(advance(clock(0, 0), i64::MIN), clock(16, 0));
}

#[test]
fn hours_are_added_to_a_time() {
    let tokens = vec![
        location(0, "22:30", TokenType::Time(clock(22, 30))),
        location(6, "add", TokenType::Text("add".to_string())),
        location(10, "2.9", TokenType::Number(number(2.9))),
        location(14, "hours", TokenType::Text("hours".to_string())),
    ];
    let tokens = apply_rules("en", tokens, &english(), &config(), &unusable);
    assert_eq!(tokens.len(), 1);
    assert_eq!(tokens[0].token_type, Some(TokenType::Time(clock(0, 30))));
    assert_eq!((tokens[0].start, tokens[0].end), (0, 19));
}

#[test]
fn other_words_are_no_hours() {
    let tokens = vec![
        location(0, "22:30", TokenType::Time(clock(22, 30))),
        location(6, "add", TokenType::Text("add".to_string())),
        location(10, "2", TokenType::Number(number(2.0))),
        location(12, "days", TokenType::Text("days".to_string())),
    ];
    let tokens = apply_rules("en", tokens, &english(), &config(), &unusable);
    assert_eq!(tokens.len(), 4);
}

#[test]
fn hour_add_called_directly() {
    let stored = Rc::new(VariableInfo {
        index: 0,
        name: "start".to_string(),
        tokens: vec![element(TokenType::Text("start".to_string()))],
        data: Rc::new(BramaAstType::Time(clock(8, 15))),
    });
    let start = location(0, "start", TokenType::Variable(stored));
    let time = location(0, "10:00", TokenType::Time(clock(10, 0)));
    let count = location(6, "-3", TokenType::Number(number(-3.0)));
    let word = location(6, "three", TokenType::Text("three".to_string()));
    let mut fields = RuleFields::new();
    assert_eq!(hour_add(&fields, &unusable), Err("Time format not valid".to_string()));
    fields.insert("time".to_string(), &time);
    assert_eq!(hour_add(&fields, &unusable), Err("Time format not valid".to_string()));
    fields.insert("hour".to_string(), &word);
    assert_eq!(hour_add(&fields, &unusable), Err("Hour information not valid".to_string()));
    fields.insert("hour".to_string(), &count);
    assert_eq!(hour_add(&fields, &unusable), Ok(TokenType::Time(clock(7, 0))));
    assert_eq!(
        RuleFunction::HourAdd.call(&config(), &fields, &unusable),
        Ok(TokenType::Time(clock(7, 0)))
    );
    fields.insert("time".to_string(), &count);
    assert_eq!(hour_add(&fields, &unusable), Err("Time information not valid".to_string()));
    fields.insert("time".to_string(), &start);
    assert_eq!(get_time("time", &fields), Some(clock(8, 15)));
    assert_eq!(get_time("hour", &fields), None);
    assert_eq!(hour_add(&fields, &unusable), Ok(TokenType::Time(clock(5, 15))));
    let request = hour_add_request(&fields).unwrap();
    assert!(matches!(request.unit, Unit::HoursAfter(time) if time == clock(8, 15)));
    assert!(matches!(request.formula, Formula::Value(value) if value == number(-3.0)));
}

fn chrono_time(time: ClockTime) -> chrono::NaiveTime {
    chrono::NaiveTime::from_num_seconds_from_midnight_opt(time.secs, time.frac).unwrap()
}

#[test]
fn hours_are_added_as_chrono_adds_them() {
    let times = [
        ClockTime { secs: 0, frac: 0 },
        ClockTime { secs: 1, frac: 999_999_999 },
        ClockTime { secs: 37_805, frac: 250 },
        ClockTime { secs: 86_399, frac: 0 },
        ClockTime { secs: 86_399, frac: 1_000_000_000 },
        ClockTime { secs: 86_399, frac: 1_999_999_999 },
        ClockTime { secs: 3_599, frac: 1_500_000_000 },
        ClockTime { secs: 59, frac: 1_000_000_000 },
    ];
    let hours = [0i64, 1, -1, 2, 11, 23, 24, 25, -23, -24, -25, 47, -49, 1_000, -1_000, 1_000_003];
    for time in times {
        for count in hours {
            let expected = chrono_time(time) + chrono::TimeDelta::try_hours(count).unwrap();
            let moved = advance(time, count);
            assert_eq!(
                (moved.secs, moved.frac),
                (expected.num_seconds_from_midnight(), expected.nanosecond()),
                "{:?} and {} hours",
                time,
                count
            );
        }
    }
}

#[test]
fn a_leap_second_does_not_last() {
    let leap = ClockTime { secs: 86_399, frac: 1_250_000_000 };
    assert_eq!(advance(leap, 0), leap);
    assert_eq!(advance(leap, 1), ClockTime { secs: 3_599, frac: 250_000_000 });
    assert_eq!(advance(leap, -1), ClockTime { secs: 82_800, frac: 250_000_000 });
    assert_eq!(advance(leap, 24), ClockTime { secs: 86_399, frac: 250_000_000 });
    assert_eq!(advance(leap, -24), ClockTime { secs: 0, frac: 250_000_000 });
}
