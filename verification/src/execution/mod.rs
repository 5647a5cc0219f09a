pub mod builder;
pub mod count;
pub mod filter;
pub mod full_scan;
pub mod limit;
pub mod max;
pub mod project;
pub mod sum;
pub mod sum_accumulator;
