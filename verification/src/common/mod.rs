//! Types that the whole application shares.

use vstd::prelude::*;

pub mod event;
pub mod timezone;

verus! {

/// The most iterations that a worker agent runs.
pub const MAX_WORKER_ITERATIONS: u32 = 500;

} // verus!
