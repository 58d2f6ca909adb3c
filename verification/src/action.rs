//! What a scheduler asks of the code that drives it.

use vstd::prelude::*;

verus! {

/// A decision of a scheduler, over unbounded numbers.
pub enum Decision {
    /// Let `ms` milliseconds pass, then ask again.
    Wait { ms: nat },
    /// Show the line at `index` now, then ask again.
    Emit { index: nat },
    /// Every line has been shown.
    Finished,
}

/// What the driver of a scheduler has to do next.
#[derive(Debug, Clone, Copy, PartialEq, Eq)]
pub enum Action {
    /// Suspend for `ms` milliseconds, then ask again.
    Wait { ms: u128 },
    /// Show the line at `index` now, then ask again.
    Emit { index: usize },
    /// Every line has been shown; there is nothing left to do.
    Finished,
}

impl View for Action {
    type V = Decision;

    open spec fn view(&self) -> Decision {
        match *self {
            Action::Wait { ms } => Decision::Wait { ms: ms as nat },
            Action::Emit { index } => Decision::Emit { index: index as nat },
            Action::Finished => Decision::Finished,
        }
    }
}

} // verus!
