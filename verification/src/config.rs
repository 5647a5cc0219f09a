//! Storage and execution settings.
use vstd::prelude::*;

verus! {

/// Values per granule: the unit that one mark addresses.
pub const GRANULE_SIZE: usize = 512;

/// Uncompressed bytes that a block collects before it is compressed.
pub const BLOCK_BUFFER_SIZE: usize = 8192;

/// Worker threads that scan parts.
pub const N_WORKERS: usize = 4;

} // verus!
