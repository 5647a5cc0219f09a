pub mod aggregator;
pub mod frontend;
pub mod bytes;
pub mod catalog;
pub mod config;
pub mod encoding;
pub mod execution;
pub mod float_bits;
pub mod logical_plan;
pub mod names;
pub mod parser;
pub mod physical_plan;
pub mod processors;
pub mod storage;
pub mod text;
