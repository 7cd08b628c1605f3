//! Aggregation of action and analysis metrics over the graphs of a build's
//! top-level targets.

pub mod types;
pub mod state;
pub mod laws;
pub mod amortization;
pub mod sums;
