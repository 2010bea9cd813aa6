//! Hooks of a Monte-Carlo tree search that was sketched beside the
//! alpha-beta engine and never wired into move selection; the two phases
//! below are placeholders.

use vstd::prelude::*;

verus! {

/// The playout phase of the sketched Monte-Carlo search; not implemented.
pub fn mcts_simulation() {
}

/// The statistics write-back phase of the sketched Monte-Carlo search; not
/// implemented.
pub fn mcts_backpropogation() {
}

} // verus!
