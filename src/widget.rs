//! The drawing contract that widgets implement.

use vstd::prelude::*;
use crate::screen::Screen;

verus! {

/// A rectangle of the grid: origin (x, y), width and height in cells.
#[derive(Clone, Copy, Debug, PartialEq, Eq, Structural)]
pub struct BBox {
    pub x: u32,
    pub y: u32,
    pub w: u32,
    pub h: u32,
}

/// Something that can draw itself into a bounding box of the grid.
pub trait Widget {
    fn draw(&self, screen: &mut Screen, bbox: BBox)
        requires
            old(screen).wf(),
        ensures
            final(screen).wf(),
            final(screen).w() == old(screen).w(),
            final(screen).h() == old(screen).h(),
            final(screen).front_cells() == old(screen).front_cells(),
    ;
}

} // verus!
