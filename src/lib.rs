//! The core of a signal-driven sampling CPU profiler: the profiler's state
//! and its start/stop rules, the blocklist of address ranges, the sample
//! sink, the fallback thread tag and the interval timer's period.

pub mod blocklist;
pub mod builder;
pub mod collector;
pub mod error;
pub mod profiler;
pub mod thread_name;
pub mod timer;


use vstd::prelude::*;

verus! {

/// Most frames kept of one sampled stack.
pub const MAX_DEPTH: usize = 128;

/// Size of the buffer that holds a thread's name, NUL byte included.
pub const MAX_THREAD_NAME: usize = 16;

} // verus!
