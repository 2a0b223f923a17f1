//! Points of the grid and what the user has selected of it.

use vstd::prelude::*;

verus! {

/// A cell of the grid. Lines of the scrollback are negative.
#[derive(Clone, Copy, PartialEq, Eq, Structural, Debug)]
pub struct GridPoint {
    pub line: i32,
    pub column: usize,
}

/// Which half of a cell the pointer is on.
#[derive(Clone, Copy, PartialEq, Eq, Structural, Debug)]
pub enum Side {
    Left,
    Right,
}

/// How a selection grows: by cells, by words or by lines.
#[derive(Clone, Copy, PartialEq, Eq, Structural, Debug)]
pub enum SelectionType {
    Simple,
    Semantic,
    Lines,
}

/// A range of selected cells, both ends included.
#[derive(Clone, Copy, PartialEq, Eq, Structural, Debug)]
pub struct SelectionRange {
    pub start: GridPoint,
    pub end: GridPoint,
    pub is_block: bool,
}

impl SelectionRange {
    /// Whether a point lies within the selection: between the two ends in
    /// reading order, or in their rectangle where it is a block.
    pub open spec fn holds(&self, p: GridPoint) -> bool {
        &&& self.start.line <= p.line <= self.end.line
        &&& self.start.column <= p.column || (self.start.line != p.line && !self.is_block)
        &&& p.column <= self.end.column || (self.end.line != p.line && !self.is_block)
    }

    /// Whether a point lies within the selection.
    pub fn contains(&self, p: GridPoint) -> (r: bool)
        ensures
            r == self.holds(p),
    {
        self.start.line <= p.line && p.line <= self.end.line && (self.start.column <= p.column || (
        self.start.line != p.line && !self.is_block)) && (p.column <= self.end.column || (
        self.end.line != p.line && !self.is_block))
    }
}

/// The user's selection, in absolute grid coordinates.
///
/// A selection belongs to the user, not to the program: the parser throws its
/// own away whenever the program erases the region it covers, so this one is
/// the source of truth and is installed again before every render and copy.
#[derive(Clone, Copy, PartialEq, Eq, Structural, Debug)]
pub struct SelectionState {
    pub ty: SelectionType,
    pub start: GridPoint,
    pub start_side: Side,
    pub end: GridPoint,
    pub end_side: Side,
}

/// A point after `delta` lines have scrolled off into the scrollback.
pub open spec fn point_shifted(p: GridPoint, delta: int) -> GridPoint {
    GridPoint { line: (p.line - delta) as i32, column: p.column }
}

impl SelectionState {
    /// Whether both ends are still points of the grid `delta` lines on.
    pub open spec fn shiftable(&self, delta: int) -> bool {
        &&& i32::MIN <= self.start.line - delta <= i32::MAX
        &&& i32::MIN <= self.end.line - delta <= i32::MAX
    }

    /// The selection after `delta` lines have scrolled off into the
    /// scrollback: what sat on line `k` is on line `k - delta` afterwards.
    pub open spec fn shifted(&self, delta: int) -> SelectionState {
        SelectionState {
            start: point_shifted(self.start, delta),
            end: point_shifted(self.end, delta),
            ..*self
        }
    }

    /// Follow the content when `delta` lines scroll off into the scrollback.
    pub fn shift(&mut self, delta: i32)
        requires
            old(self).shiftable(delta as int),
        ensures
            *final(self) == old(self).shifted(delta as int),
    {
        self.start.line = self.start.line - delta;
        self.end.line = self.end.line - delta;
    }
}

/// Following the content down and back up again ends where it began.
pub proof fn shifting_back_restores(s: SelectionState, delta: int)
    requires
        s.shiftable(delta),
    ensures
        s.shifted(delta).shifted(-delta) == s,
{
}

/// Following the content in two steps is following it in one.
pub proof fn shifts_add_up(s: SelectionState, a: int, b: int)
    requires
        s.shiftable(a),
        s.shiftable(a + b),
    ensures
        s.shifted(a).shifted(b) == s.shifted(a + b),
{
}

} // verus!
