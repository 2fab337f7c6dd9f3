//! Why a query is refused.

use vstd::prelude::*;

verus! {

/// A request that the window cannot answer.
#[derive(Clone, Copy, Debug, PartialEq, Eq, Structural)]
pub enum StatsError {
    /// A window length greater than the capacity of the window.
    WindowTooLarge { window: usize, universe_window: usize },
    /// A sequence of averages whose length does not fit the bars held.
    LengthMismatch { window: usize, expected: usize, found: usize },
}

} // verus!
