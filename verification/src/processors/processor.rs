//! Errors of the pull-based execution pipeline.
use vstd::prelude::*;

verus! {

#[derive(Debug)]
pub enum ExecutionError {
    /// An I/O failure, by its message.
    Io(String),
    InvalidData(String),
}

} // verus!
