//! Sprites: visual assets owning a grid of local cells.

use crate::grid::Grid;
use vstd::prelude::*;

verus! {

/// A visual asset: a grid of cells giving the sprite's local appearance.
/// Each cell may carry its own depth, so parts of one sprite can sit at
/// different depths. Read-only during composition.
#[derive(Clone, Debug, PartialEq, Eq)]
pub struct Sprite {
    pub buffer: Grid,
}

impl Default for Sprite {
    fn default() -> (s: Sprite)
        ensures
            s.buffer.wf(),
            s.buffer.spec_rows() == 0,
            s.buffer.spec_cols() == 0,
    {
        Sprite { buffer: Grid::new(0, 0) }
    }
}

} // verus!
