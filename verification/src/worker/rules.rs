pub mod cleanup_rules;
pub mod date_time_rules;
pub mod money_rules;
pub mod number_rules;
pub mod percent_rules;
