//! The Nvidia Jetson board.

use vstd::prelude::*;

verus! {

/// The Jetson board; its GPIO access is not implemented yet, so it keeps no
/// state.
#[derive(Clone)]
pub struct JetsonPinManager;

impl JetsonPinManager {
    /// Opens the board.
    pub fn new() -> (pm: Self)
        ensures
            pm == JetsonPinManager,
    {
        JetsonPinManager
    }
}

} // verus!
