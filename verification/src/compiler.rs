pub mod interpreter;
pub mod item;
pub mod notation;
pub mod number;
