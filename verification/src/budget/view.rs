//! What the budget widget displays.

use vstd::prelude::*;

verus! {

/// What the budget widget displays.
#[derive(Clone, Copy, Debug, PartialEq, Eq, Structural)]
pub struct View {
    pub expenses: bool,
    pub allocations: bool,
}

} // verus!
