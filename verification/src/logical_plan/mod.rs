pub mod display;
pub mod logical_operators;
pub mod lower;
pub mod optimizer;
