//! Batch download engine: task descriptors, a counter-consistent status store,
//! a dispatcher with a bounded-concurrency model, cooperative cancellation and
//! retry of failed tasks, plus the pure display helpers of the application.

pub mod catalog;
pub mod engine;
pub mod status;
pub mod store;
pub mod tally;
pub mod task;
pub mod text;
pub mod version;
