//! Results shared by the event handlers.

use vstd::prelude::*;

verus! {

/// Result of handling an event: continue the loop or exit.
#[derive(Debug, Clone, Copy, PartialEq, Eq, Structural)]
pub enum HandleResult {
    Continue,
    Break,
}

} // verus!
