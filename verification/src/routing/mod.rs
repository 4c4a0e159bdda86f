//! The routing engine: scheduling, workers, and routing a node.

pub mod call_laws;
pub mod clock_laws;
pub mod handover_laws;
pub mod node;
pub mod route_laws;
pub mod run_laws;
pub mod schedule_laws;
pub mod scheduler;
pub mod turn_laws;
pub mod worker;
pub mod writer;
