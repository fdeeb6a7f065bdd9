//! Tick engine: non-blocking tick processing with priority queues.
//!
//! The library holds the scheduling logic of the engine: task priorities,
//! tasks and their data, the actions that handlers answer with, the
//! per-tick result and the engine state that queues tasks, dispatches them
//! in priority order and accounts for every outcome.

pub mod clock;
pub mod priority;
pub mod text;
pub mod task;
pub mod action;
pub mod schedule;
pub mod tally;
pub mod engine;
pub mod cycle;
