//! Profiler hooks. This build carries no profiler client, so marking a frame or
//! sending a message does nothing.

use vstd::prelude::*;

verus! {

/// Marks the end of a frame for the profiler; a no-op without a profiler client.
pub fn frame_mark() {
}

/// Sends a message to the profiler; a no-op without a profiler client.
pub fn message(text: &str) {
}

} // verus!
