//! Verified core of a suspended-fibre simulation: a chain of point masses
//! joined by springs and pinned at both ends.
//!
//! The numeric physics (vectors, spring, gravity and damping forces) is
//! supplied by the caller as closures; this crate owns the chain and the order
//! of the phases of a time step (each spring's tension once, then each free
//! node's force, then integration, all from the state before the step), the
//! pinned anchors, the rolling window of convergence samples and the schedule
//! of a run.

pub mod chain;
pub mod window;
pub mod schedule;
