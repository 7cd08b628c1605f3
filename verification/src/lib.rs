//! Pieces of a build system's core: build-option records, scheduling
//! context, cell bookkeeping, remote-execution statistics, and the state
//! tracker that aggregates per-target build metrics.

pub mod aggregated_metrics;
pub mod attr_inspect_options;
pub mod cell_info;
pub mod error;
pub mod global_cfg_options;
pub mod re_stats;
pub mod schedule_type;
