pub mod alias;
pub mod binary64;
pub mod clock;
pub mod compiler;
pub mod config;
pub mod formula;
pub mod literal;
pub mod pattern;
pub mod rewrite;
pub mod search;
pub mod syntax;
pub mod table;
pub mod token;
pub mod tokinizer;
pub mod tools;
pub mod types;
pub mod variable;
pub mod worker;
