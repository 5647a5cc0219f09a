pub mod batch;
pub mod evaluate;
pub mod group_by;
pub mod plan;
pub mod processor;
pub mod pruning;
pub mod scalar_value;
pub mod zone_map_scan;

pub use plan::build_plan;
