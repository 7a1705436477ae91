//! The bookkeeping of the server's task executor: task ids, the bounded
//! queue of tasks ready to run, and the table of spawned tasks.
pub mod task;
pub mod queue;
pub mod executor;
pub mod arguments;
