//! Batch text classification support: a label index that maps a classifier's
//! string vocabulary to dense integer ids, pre-sized output matrices, and the
//! per-item remapping and ordered collection that turn unordered per-item
//! prediction results into row-indexed result matrices.
use vstd::prelude::*;

pub mod batch;
pub mod label_index;
pub mod laws;
pub mod matrix;
pub mod model;

verus! {

/// Capacity of the bounded hand-off queues between pipeline stages.
pub const CHANNEL_SIZE: usize = 128;

/// Smallest number of worker threads the prediction pool may run with.
pub const MIN_THREADS: usize = 3;

/// Size of the worker pool: the hardware parallelism, but never below the
/// configured floor.
pub fn pool_size(min_threads: usize, available: usize) -> (r: usize)
    ensures
        r == if min_threads >= available {
            min_threads
        } else {
            available
        },
        r >= min_threads,
        r >= available,
{
    if min_threads >= available {
        min_threads
    } else {
        available
    }
}

} // verus!
