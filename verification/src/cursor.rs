//! A screen-relative cursor position, decoupled from the buffer's notion
//! of which line is current; the owning controller keeps the two in sync.

use vstd::prelude::*;

verus! {

/// A cursor position: `x` is the column within the current line, `y` the
/// vertical offset within the drawable screen area.
#[derive(Clone, Copy, PartialEq, Eq, Structural, Debug)]
pub struct RelativePosition {
    pub x: usize,
    pub y: usize,
}

impl RelativePosition {
    /// The origin.
    pub fn new() -> (p: RelativePosition)
        ensures
            p.x == 0,
            p.y == 0,
    {
        RelativePosition { x: 0, y: 0 }
    }

    /// One row up, stopping at the top edge.
    pub fn up(&mut self)
        ensures
            final(self).y == (if old(self).y == 0 { 0int } else { old(self).y - 1 }),
            final(self).x == old(self).x,
    {
        if self.y != 0 {
            self.y = self.y - 1;
        }
    }

    /// One row down.
    pub fn down(&mut self)
        requires
            old(self).y < usize::MAX,
        ensures
            final(self).y == old(self).y + 1,
            final(self).x == old(self).x,
    {
        self.y = self.y + 1;
    }

    /// One column left, stopping at the left edge.
    pub fn left(&mut self)
        ensures
            final(self).x == (if old(self).x == 0 { 0int } else { old(self).x - 1 }),
            final(self).y == old(self).y,
    {
        if self.x != 0 {
            self.x = self.x - 1;
        }
    }

    /// Back to column zero.
    pub fn full_left(&mut self)
        ensures
            final(self).x == 0,
            final(self).y == old(self).y,
    {
        self.x = 0;
    }

    /// One column right.
    pub fn right(&mut self)
        requires
            old(self).x < usize::MAX,
        ensures
            final(self).x == old(self).x + 1,
            final(self).y == old(self).y,
    {
        self.x = self.x + 1;
    }

    /// Jump to the given column.
    pub fn go_to_x(&mut self, new_x: usize)
        ensures
            final(self).x == new_x,
            final(self).y == old(self).y,
    {
        self.x = new_x;
    }
}

} // verus!
