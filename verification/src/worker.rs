pub mod engine;
pub mod executer;
pub mod rule;
pub mod rules;
pub mod tools;
