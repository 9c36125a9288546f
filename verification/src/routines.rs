//! What a routine key asks of the console loop.

use vstd::prelude::*;

verus! {

/// Whether the console goes on after a key.
#[derive(Debug, Clone, Copy, PartialEq, Eq, Structural)]
pub enum Action {
    Continue,
    Quit,
}

} // verus!
