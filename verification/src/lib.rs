//! Core of a file/collection catalog service: the resumable re-indexing
//! orchestration subsystem. A task store records maintenance work as
//! persistent state-machine rows, entity sources hand out keyset-paginated
//! pages, and schedulers drive one checkpointed unit of work per tick,
//! surviving restarts and failures without losing or duplicating work.
//!
//! The design assumes a single active scheduler instance per store: the
//! single-active-task invariant is re-established transactionally by every
//! cancel-previous enqueue, not by any cross-process coordination, so two
//! processes driving the same task name could both observe and advance one
//! task's checkpoint.

pub mod checkpoint;
pub mod dto;
pub mod gc;
pub mod metadata;
pub mod paging;
pub mod records;
pub mod reindex;
pub mod routes;
pub mod sink;
pub mod sources;
pub mod store;
pub mod task;
pub mod text;

use vstd::prelude::*;

verus! {

/// The interval, in time units, between two ticks of a scheduler that found
/// nothing to do or finished the backlog.
pub const SLOW_INTERVAL_SECS: u64 = 10;

/// The interval, in time units, between two ticks while a backlog remains.
pub const FAST_INTERVAL_SECS: u64 = 1;

} // verus!
