pub mod lower;
pub mod optimizer;
pub mod physical_operators;
