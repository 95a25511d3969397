//! A character-grid sprite compositor.
//!
//! Sprites are rectangular grids of cells (glyph, colors, depth). A pass
//! projects each sprite into the coordinate system of a unique viewing
//! frame and writes its cells into a destination grid under a depth test:
//! lower depth is nearer the viewer, and a cell is overwritten exactly
//! when the incoming depth is not strictly greater than the occupant's.

pub mod compositor;
pub mod grid;
pub mod level;
pub mod sprite;
pub mod transform;
