//! A discrete-tick simulation of a weighted-fair CPU scheduler.
//!
//! Synthetic workloads, each alternating CPU and I/O bursts, compete for a
//! single virtual processor.  The ready set is ordered by virtual runtime
//! (vruntime): the task that has received proportionally the least CPU share
//! so far runs next, and a task's weight divides elapsed time before it is
//! accumulated, so heavier tasks accrue vruntime more slowly and run more
//! often.

pub mod clock;
pub mod task;
pub mod queue;
pub mod ready_tree;
pub mod fair;
pub mod scheduler;
