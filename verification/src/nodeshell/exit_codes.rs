//! Exit code sentinel values of node runs.
//!
//! - `0`: the node exited normally
//! - positive: the node reported an error
//! - `-1`: waiting failed or the child produced no exit code
//! - `-9`: killed by the engine because of a timeout

use vstd::prelude::*;

verus! {

/// Process exited normally with code 0.
pub const SUCCESS: i32 = 0;

/// `wait()` failed or no exit code was available.
pub const WAIT_FAILED: i32 = -1;

/// Killed by the engine because of a timeout.
pub const TIMEOUT: i32 = -9;

} // verus!
