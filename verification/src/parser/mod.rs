pub mod ast;
pub mod lower;
