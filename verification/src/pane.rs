//! Panes: splittable views onto buffers ("windows" in Emacs terms).

use vstd::prelude::*;

verus! {

/// The direction in which a pane is split.
#[derive(Clone, Copy, Debug, PartialEq, Eq, Structural)]
pub enum SplitDirection {
    Horizontal,
    Vertical,
}

} // verus!
