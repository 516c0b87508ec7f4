//! Counters reported by the performance monitor. Frame timing itself works
//! on clock readings and floating point and is kept by the application.
use vstd::prelude::*;

verus! {

/// How much the performance monitor's buffers hold and could hold.
#[derive(Debug, Clone)]
pub struct MemoryStats {
    pub frame_times_capacity: usize,
    pub frame_times_len: usize,
    pub history_capacity: usize,
    pub history_len: usize,
}

} // verus!
